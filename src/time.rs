use vstd::prelude::*;

verus! {

#[verifier::external_type_specification]
#[verifier::external_body]
pub struct ExInstant(std::time::Instant);

/// Relies on `std::time::Instant::now`: a reading of the platform's monotonic clock.
#[verifier::external_body]
fn instant_now() -> std::time::Instant {
    std::time::Instant::now()
}

/// Relies on `std::time::Instant::elapsed`: the time since `origin`, never negative.
#[verifier::external_body]
fn elapsed_since(origin: &std::time::Instant) -> core::time::Duration {
    origin.elapsed()
}

/// Relies on `std::time::Duration::as_nanos`: the whole nanoseconds of `d`,
/// of which the cast keeps the low 64 bits. Exact below about 584 years;
/// past that the reading wraps.
#[verifier::external_body]
fn duration_nanos(d: &core::time::Duration) -> u64 {
    d.as_nanos() as u64
}

/// A monotonic clock that reads as nanoseconds since the moment it was made.
pub struct MonotonicClock {
    origin: std::time::Instant,
}

impl MonotonicClock {
    pub fn new() -> Self {
        MonotonicClock { origin: instant_now() }
    }

    /// Nanoseconds elapsed since this clock was made.
    pub fn now(&self) -> u64 {
        let d = elapsed_since(&self.origin);
        duration_nanos(&d)
    }
}

/// The instant `delay` nanoseconds after `now`, held at the end of the timeline.
pub open spec fn spec_after(now: u64, delay: u64) -> u64 {
    if now + delay <= u64::MAX {
        (now + delay) as u64
    } else {
        u64::MAX
    }
}

/// The instant `delay` nanoseconds after `now`.
pub fn after(now: u64, delay: u64) -> (r: u64)
    ensures
        r == spec_after(now, delay),
{
    now.saturating_add(delay)
}

} // verus!
