use chokepoint::{BandwidthLimiter, ConfigError, MonotonicClock};

#[test]
fn clock_readings_do_not_go_back() {
    let clock = MonotonicClock::new();
    let a = clock.now();
    let b = clock.now();
    assert!(b >= a);
}

const MS: u64 = 1_000_000;
const SECOND: u64 = 1_000_000_000;

#[test]
fn time_based_capacity_window() {
    let mut limiter = BandwidthLimiter::new(10, SECOND).unwrap();
    assert_eq!(limiter.capacity_left(), 10);

    let now = limiter.now();
    limiter.add_request_at(5, now);
    assert_eq!(limiter.capacity_left(), 5);

    let now = now + 500 * MS;
    limiter.add_request_at(5, now);
    assert_eq!(limiter.capacity_left(), 0);
    limiter.add_request(1); // requests beyond the limit are still recorded

    let now = now + 400 * MS;
    let duration = limiter.deadline_duration(now).unwrap();
    assert!(duration <= 100 * MS && duration >= 90 * MS, "{:?}", duration);

    let now = now + 200 * MS;
    limiter.update_at(now);
    assert_eq!(limiter.capacity_left(), 4);
}

#[test]
fn zero_window_is_refused() {
    assert_eq!(BandwidthLimiter::new(10, 0).err(), Some(ConfigError::ZeroWindow));
}

#[test]
fn zero_limit_is_always_reached() {
    let limiter = BandwidthLimiter::new(0, SECOND).unwrap();
    assert_eq!(limiter.capacity_left(), 0);
    assert!(limiter.limit_reached());
}

#[test]
fn capacity_saturates_at_zero() {
    let mut limiter = BandwidthLimiter::new(10, SECOND).unwrap();
    limiter.add_request_at(25, 7);
    assert_eq!(limiter.capacity_left(), 0);
    assert!(limiter.limit_reached());
}

#[test]
fn deadline_of_oldest_record() {
    let mut limiter = BandwidthLimiter::new(100, SECOND).unwrap();
    assert_eq!(limiter.deadline(), None);
    assert_eq!(limiter.deadline_duration(0), None);
    limiter.add_request_at(10, 3 * SECOND);
    limiter.add_request_at(10, 3 * SECOND + 200 * MS);
    assert_eq!(limiter.deadline(), Some(4 * SECOND));
    assert_eq!(limiter.deadline_duration(3 * SECOND + 600 * MS), Some(400 * MS));
    assert_eq!(limiter.deadline_duration(4 * SECOND), Some(0));
    assert_eq!(limiter.deadline_duration(4 * SECOND + 1), None);
}

#[test]
fn update_keeps_records_at_the_cutoff() {
    let mut limiter = BandwidthLimiter::new(100, SECOND).unwrap();
    limiter.add_request_at(30, SECOND);
    limiter.add_request_at(20, 2 * SECOND);
    // cutoff = now - window = 1 s: a record at exactly 1 s stays
    limiter.update_at(2 * SECOND);
    assert_eq!(limiter.capacity_left(), 50);
    limiter.update_at(2 * SECOND + 1);
    assert_eq!(limiter.capacity_left(), 80);
    limiter.update_at(10 * SECOND);
    assert_eq!(limiter.capacity_left(), 100);
    assert_eq!(limiter.deadline(), None);
}
