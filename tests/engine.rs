use bytes::Bytes;
use chokepoint::{
    chance, corrupt_bytes, corrupt_bytes_at, BandwidthLimit, ChokeItem, ChokeSettings, ChokeSettingsOrder,
    ConfigError, ShapingEngine, FALLBACK_TICK, PROBABILITY_ONE,
};

const MS: u64 = 1_000_000;
const SECOND: u64 = 1_000_000_000;

fn item(i: u8) -> Bytes {
    Bytes::from(vec![i])
}

fn engine(settings: ChokeSettings) -> ShapingEngine<Bytes> {
    ShapingEngine::new(settings).unwrap()
}

/// Offers each item at `now` with its delay, as the outer loop does.
fn offer(e: &mut ShapingEngine<Bytes>, items: Vec<Bytes>, delays: Vec<Option<u64>>, now: u64) {
    for (it, d) in items.into_iter().zip(delays) {
        assert!(e.intake_open());
        if e.screen() {
            e.enqueue(it, d, now);
        }
    }
}

/// Emits until nothing is held, moving the clock to each wake-up instant.
fn drain(e: &mut ShapingEngine<Bytes>, mut now: u64) -> Vec<(u64, Bytes)> {
    let mut out = Vec::new();
    let mut steps = 0;
    while e.pending() {
        steps += 1;
        assert!(steps < 100_000);
        match e.emit(now) {
            Some(x) => out.push((now, x)),
            None => {
                let at = e.wake_at(now).unwrap();
                now = if at > now { at } else { now + 1 };
            }
        }
    }
    out
}

fn firsts(out: &[(u64, Bytes)]) -> Vec<u8> {
    out.iter().map(|(_, b)| b[0]).collect()
}

#[test]
fn identity_with_default_settings() {
    let mut e = engine(ChokeSettings::default());
    let inputs = vec![Bytes::from("00"), Bytes::from("01"), Bytes::from("02")];
    offer(&mut e, inputs.clone(), vec![None, None, None], 0);
    let out: Vec<Bytes> = drain(&mut e, 0).into_iter().map(|(_, b)| b).collect();
    assert_eq!(out, inputs);
    assert_eq!(e.total_packets(), 3);
    assert_eq!(e.dropped_packets(), 0);
}

#[test]
fn identity_unordered_without_delays() {
    let mut e = engine(ChokeSettings::default().set_ordering(Some(ChokeSettingsOrder::Unordered)));
    offer(&mut e, (0..10).map(item).collect(), vec![None; 10], 5);
    assert_eq!(firsts(&drain(&mut e, 5)), (0..10).collect::<Vec<u8>>());
}

#[test]
fn stream_delivery_without_modifications() {
    let mut e = engine(ChokeSettings::default());
    let inputs: Vec<Bytes> = (0..10usize).map(|i| Bytes::from(i.to_le_bytes().to_vec())).collect();
    offer(&mut e, inputs, vec![None; 10], 0);
    let output: Vec<usize> = drain(&mut e, 0)
        .into_iter()
        .map(|(_, p)| usize::from_le_bytes(p[0..8].try_into().unwrap()))
        .collect();
    assert_eq!(output, (0..10).collect::<Vec<_>>());
}

#[test]
fn ordered_hold_up() {
    let mut e = engine(ChokeSettings::default().set_ordering(Some(ChokeSettingsOrder::Ordered)));
    offer(&mut e, vec![item(1), item(2), item(3)], vec![Some(150 * MS), Some(50 * MS), Some(100 * MS)], 0);
    let out = drain(&mut e, 0);
    assert_eq!(firsts(&out), vec![1, 2, 3]);
    // the delayed head holds back everything behind it
    assert!(out.iter().all(|(t, _)| *t >= 150 * MS));
}

#[test]
fn unordered_reorder() {
    let mut e = engine(ChokeSettings::default().set_ordering(Some(ChokeSettingsOrder::Unordered)));
    offer(&mut e, vec![item(1), item(2), item(3)], vec![Some(150 * MS), Some(50 * MS), Some(100 * MS)], 0);
    let out = drain(&mut e, 0);
    assert_eq!(firsts(&out), vec![2, 3, 1]);
    assert_eq!(out.iter().map(|(t, _)| *t).collect::<Vec<_>>(), vec![50 * MS, 100 * MS, 150 * MS]);
}

#[test]
fn unordered_decreasing_delays_reverse() {
    let mut e = engine(ChokeSettings::default().set_ordering(Some(ChokeSettingsOrder::Unordered)));
    let delays = (0..6u64).map(|i| Some((60 - 10 * i) * MS)).collect();
    offer(&mut e, (0..6).map(item).collect(), delays, 0);
    assert_eq!(firsts(&drain(&mut e, 0)), vec![5, 4, 3, 2, 1, 0]);
}

#[test]
fn single_item_leaves_at_its_latency() {
    let mut e = engine(ChokeSettings::default());
    offer(&mut e, vec![item(9)], vec![Some(30 * MS)], 1_000);
    assert_eq!(e.emit(1_000), None);
    assert_eq!(e.wake_at(1_000), Some(1_000 + 30 * MS));
    let out = drain(&mut e, 1_000);
    assert_eq!(out.len(), 1);
    assert_eq!(out[0].0, 1_000 + 30 * MS);
}

#[test]
fn lossy_with_fixed_draws() {
    let mut e = engine(ChokeSettings::default().set_drop_probability(Some(PROBABILITY_ONE / 2)));
    // a fixed-seed linear congruential sequence stands in for the loss draws
    let mut seed: u64 = 42;
    for i in 0..10u8 {
        seed = seed.wrapping_mul(6364136223846793005).wrapping_add(1442695040888963407);
        let loss = (seed >> 33) % 2 == 0;
        if e.screen_with(false, loss) {
            e.enqueue_with(item(i), None, false, false, 0);
        }
    }
    let out = firsts(&drain(&mut e, 0));
    assert!(out.len() < 10);
    assert!(out.iter().all(|i| *i < 10));
    assert!(out.windows(2).all(|w| w[0] < w[1]));
    assert_eq!(e.dropped_packets(), 10 - out.len());
    assert!(e.has_dropped_item());
    e.reset_dropped_item();
    assert!(!e.has_dropped_item());
}

#[test]
fn drop_probability_one_drops_everything() {
    let mut e = engine(ChokeSettings::default().set_drop_probability(Some(PROBABILITY_ONE)));
    for _ in 0..20 {
        assert!(!e.screen());
    }
    assert_eq!(e.dropped_packets(), 20);
    assert!(!e.pending());
}

#[test]
fn bandwidth_throttle() {
    let mut e = engine(ChokeSettings::default().set_bandwidth_limit(Some(1000), 0, false));
    offer(&mut e, (0..10).map(|_| Bytes::from(vec![0u8; 1000])).collect(), vec![None; 10], 0);
    let out = drain(&mut e, 0);
    assert_eq!(out.len(), 10);
    let span = out[9].0 - out[0].0;
    assert!(span >= 9 * SECOND, "{}", span);
    assert!(span <= 10 * SECOND, "{}", span);
    // never more than the limit within one window
    for w in out.windows(2) {
        assert!(w[1].0 - w[0].0 >= SECOND);
    }
}

#[test]
fn bandwidth_holds_back_then_requeues_at_front() {
    let mut e = engine(ChokeSettings::default().set_bandwidth_limit(Some(10), 0, false));
    offer(&mut e, vec![Bytes::from(vec![1u8; 10]), Bytes::from(vec![2u8; 3])], vec![None, None], 0);
    assert_eq!(e.emit(0).unwrap()[0], 1);
    assert_eq!(e.emit(0), None);
    assert_eq!(e.total_packets(), 1);
    assert_eq!(e.wake_at(0), Some(SECOND));
    assert_eq!(e.emit(SECOND), None);
    assert_eq!(e.emit(SECOND + 1).unwrap()[0], 2);
}

#[test]
fn bandwidth_drop_ratio_only_when_reached() {
    let mut e = engine(ChokeSettings::default().set_bandwidth_limit(Some(10), PROBABILITY_ONE, true));
    // under the limit, the bandwidth draw does not drop
    assert!(e.screen_with(true, false));
    e.enqueue_with(Bytes::from(vec![0u8; 10]), None, false, false, 0);
    assert!(e.emit(0).is_some());
    // now the limit is reached: a true bandwidth draw drops
    assert!(!e.screen_with(true, false));
    assert!(!e.screen());
    assert!(e.screen_with(false, false));
}

#[test]
fn bandwidth_drop_ratio_always() {
    let mut e = engine(ChokeSettings::default().set_bandwidth_limit(Some(10), 0, false));
    assert!(!e.screen_with(true, false));
    assert!(e.screen());
}

#[test]
fn duplication_doubles_output() {
    let mut e = engine(ChokeSettings::default().set_duplicate_probability(Some(PROBABILITY_ONE)));
    for i in 0..5 {
        assert!(e.screen());
        assert!(e.enqueue(item(i), None, 0));
    }
    assert_eq!(firsts(&drain(&mut e, 0)), vec![0, 0, 1, 1, 2, 2, 3, 3, 4, 4]);
}

#[test]
fn duplicate_has_no_delay() {
    let mut e = engine(ChokeSettings::default().set_ordering(Some(ChokeSettingsOrder::Unordered)));
    assert!(e.enqueue_with(item(7), Some(40 * MS), false, true, 0));
    let out = drain(&mut e, 0);
    assert_eq!(out.iter().map(|(t, _)| *t).collect::<Vec<_>>(), vec![0, 40 * MS]);
}

#[test]
fn unsupported_duplicate_produces_none() {
    let mut e: ShapingEngine<Result<Bytes, ()>> = ShapingEngine::new(ChokeSettings::default()).unwrap();
    assert!(!e.enqueue_with(Err(()), None, false, true, 0));
    assert!(e.enqueue_with(Ok(item(1)), None, false, true, 0));
    assert_eq!(e.emit(0), Some(Err(())));
    assert_eq!(e.emit(0), Some(Ok(item(1))));
    assert_eq!(e.emit(0), Some(Ok(item(1))));
    assert_eq!(e.emit(0), None);
}

#[test]
fn corruption_changes_one_byte() {
    let mut e = engine(ChokeSettings::default().set_corrupt_probability(Some(PROBABILITY_ONE)));
    e.enqueue(Bytes::from(vec![0u8; 8]), None, 0);
    let out = e.emit(0).unwrap();
    assert_eq!(out.len(), 8);
    assert_eq!(out.iter().filter(|b| **b == 0xFF).count(), 1);
    assert_eq!(out.iter().filter(|b| **b == 0).count(), 7);
}

#[test]
fn corruption_twice_keeps_length() {
    let mut b = Bytes::from(vec![1u8, 2, 3, 4]);
    b.corrupt();
    b.corrupt();
    assert_eq!(b.byte_len(), 4);
    let mut v = vec![5u8, 6, 7];
    corrupt_bytes(&mut v);
    corrupt_bytes(&mut v);
    assert_eq!(v.len(), 3);
}

#[test]
fn corrupt_bytes_flips_one_byte() {
    let mut v = vec![0x0Fu8, 0x00, 0xAA];
    corrupt_bytes_at(&mut v, 2);
    assert_eq!(v, vec![0x0F, 0x00, 0x55]);
    let mut w = vec![0u8; 16];
    corrupt_bytes(&mut w);
    assert_eq!(w.iter().filter(|b| **b == 0xFF).count(), 1);
    let mut empty: Vec<u8> = Vec::new();
    corrupt_bytes(&mut empty);
    assert!(empty.is_empty());
}

#[test]
fn chance_extremes() {
    for _ in 0..100 {
        assert!(!chance(0));
        assert!(chance(PROBABILITY_ONE));
    }
}

#[test]
fn backpressure_one_at_a_time() {
    let mut e = engine(ChokeSettings::default().set_ordering(Some(ChokeSettingsOrder::Backpressure)));
    assert!(e.backpressure());
    let mut admitted = 0usize;
    let mut emitted = Vec::new();
    let mut now = 0u64;
    let mut next = 0u8;
    while emitted.len() < 5 {
        if next < 5 && e.intake_open() {
            assert!(e.screen());
            e.enqueue(item(next), Some(50 * MS), now);
            next += 1;
            admitted += 1;
        }
        assert!(!e.intake_open() || !e.pending());
        assert!(admitted <= emitted.len() + 1);
        match e.emit(now) {
            Some(x) => emitted.push(x[0]),
            None => now = e.wake_at(now).unwrap(),
        }
    }
    assert_eq!(emitted, vec![0, 1, 2, 3, 4]);
    assert!(e.intake_open());
}

#[test]
fn invalid_probability_is_refused() {
    let r = ShapingEngine::<Bytes>::new(ChokeSettings::default().set_drop_probability(Some(PROBABILITY_ONE + 1)));
    assert_eq!(r.err(), Some(ConfigError::InvalidProbability));
    let r = ShapingEngine::<Bytes>::new(ChokeSettings::default().set_bandwidth_limit(Some(5), 2_000_000, true));
    assert_eq!(r.err(), Some(ConfigError::InvalidProbability));
}

#[test]
fn apply_settings_merges_and_rebuilds_queue() {
    let mut e = engine(ChokeSettings::default());
    offer(&mut e, vec![item(1), item(2)], vec![None, None], 0);
    // a partial update keeps the queue
    assert_eq!(e.apply_settings(ChokeSettings::default().set_drop_probability(Some(0))), Ok(()));
    assert!(e.pending());
    // a refused update changes nothing
    assert_eq!(
        e.apply_settings(ChokeSettings::default().set_corrupt_probability(Some(PROBABILITY_ONE + 5))),
        Err(ConfigError::InvalidProbability)
    );
    assert!(e.pending());
    // a new ordering discards what is held
    assert_eq!(e.apply_settings(ChokeSettings::default().set_ordering(Some(ChokeSettingsOrder::Unordered))), Ok(()));
    assert!(!e.pending());
    assert!(!e.backpressure());
}

#[test]
fn zero_bandwidth_is_no_limit() {
    let settings = ChokeSettings::default().set_bandwidth_limit(Some(0), 0, false);
    assert_eq!(settings.bandwidth_limit, Some(None));
    let direct = ChokeSettings {
        bandwidth_limit: Some(Some(BandwidthLimit {
            bytes_per_second: 0,
            drop_ratio: 0,
            only_drop_when_bandwidth_limit_reached: false,
        })),
        ..ChokeSettings::default()
    };
    let mut e = engine(direct);
    offer(&mut e, vec![Bytes::from(vec![0u8; 100]), Bytes::from(vec![0u8; 100])], vec![None, None], 0);
    assert!(e.emit(0).is_some());
    assert!(e.emit(0).is_some());
}

#[test]
fn wake_at_fallback_and_nothing_held() {
    let mut e = engine(ChokeSettings::default().set_bandwidth_limit(Some(1), 0, false));
    assert_eq!(e.wake_at(7), None);
    offer(&mut e, vec![item(1), item(2)], vec![None, None], 0);
    assert_eq!(e.wake_at(7), Some(7 + FALLBACK_TICK));
    assert!(e.emit(0).is_some());
    assert_eq!(e.emit(0), None);
    assert_eq!(e.wake_at(0), Some(SECOND));
}

#[test]
fn settings_setters() {
    let s = ChokeSettings::default();
    assert_eq!(s.ordering, None);
    let s = s
        .set_drop_probability(Some(1))
        .set_corrupt_probability(Some(2))
        .set_duplicate_probability(Some(3))
        .set_ordering(Some(ChokeSettingsOrder::Backpressure))
        .set_bandwidth_limit(Some(100), 4, true);
    assert_eq!(s.drop_probability, Some(1));
    assert_eq!(s.corrupt_probability, Some(2));
    assert_eq!(s.duplicate_probability, Some(3));
    assert_eq!(s.ordering, Some(ChokeSettingsOrder::Backpressure));
    assert_eq!(
        s.bandwidth_limit,
        Some(Some(BandwidthLimit { bytes_per_second: 100, drop_ratio: 4, only_drop_when_bandwidth_limit_reached: true }))
    );
    assert_eq!(s.set_bandwidth_limit(None, 0, false).bandwidth_limit, Some(None));
    assert_eq!(ChokeSettingsOrder::default(), ChokeSettingsOrder::Ordered);
}

#[test]
fn drop_rate_matches_probability() {
    let mut e = engine(ChokeSettings::default().set_drop_probability(Some(PROBABILITY_ONE / 2)));
    let n = 20_000usize;
    let survivors = (0..n).filter(|_| e.screen()).count();
    // expected 10 000 survivors, standard deviation about 71
    assert!(survivors > 9_300 && survivors < 10_700, "{}", survivors);
    assert_eq!(e.dropped_packets(), n - survivors);
}

#[test]
fn end_of_input_after_drain() {
    let mut e = engine(ChokeSettings::default());
    assert!(e.finished(true));
    assert!(!e.finished(false));
    offer(&mut e, vec![item(1)], vec![Some(10 * MS)], 0);
    assert!(!e.finished(true));
    drain(&mut e, 0);
    assert!(e.finished(true));
}

#[test]
fn dropped_flag_completes_one_flush() {
    let mut e = engine(ChokeSettings::default().set_drop_probability(Some(PROBABILITY_ONE)));
    assert!(!e.take_dropped_item());
    assert!(!e.screen());
    assert!(e.take_dropped_item());
    assert!(!e.take_dropped_item());
}
