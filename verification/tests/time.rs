use moq_net::model::time::{jittered, Clock, Duration, Instant, Timescale, Timestamp};

#[test]
fn test_from_secs() {
    let time = Timestamp::from_secs(5).unwrap();
    assert_eq!(time.scale(), Timescale::second());
    assert_eq!(time.as_secs(), 5);
    assert_eq!(time.as_millis(), 5000);
    assert_eq!(time.as_micros(), 5_000_000);
    assert_eq!(time.as_nanos(), 5_000_000_000);
}

#[test]
fn test_from_millis() {
    let time = Timestamp::from_millis(5000).unwrap();
    assert_eq!(time.scale(), Timescale::milli());
    assert_eq!(time.as_secs(), 5);
    assert_eq!(time.as_millis(), 5000);
}

#[test]
fn test_from_micros() {
    let time = Timestamp::from_micros(5_000_000).unwrap();
    assert_eq!(time.scale(), Timescale::micro());
    assert_eq!(time.as_secs(), 5);
    assert_eq!(time.as_micros(), 5_000_000);
}

#[test]
fn test_from_nanos() {
    let time = Timestamp::from_nanos(5_000_000_000).unwrap();
    assert_eq!(time.scale(), Timescale::nano());
    assert_eq!(time.as_secs(), 5);
    assert_eq!(time.as_nanos(), 5_000_000_000);
}

#[test]
fn test_timescale_new_rejects_zero_and_overflow() {
    assert!(Timescale::new(0).is_err());
    assert!(Timescale::new(1).is_ok());
    assert_eq!(Timescale::new(1).unwrap(), Timescale::second());
    assert_eq!(Timescale::new(1_000).unwrap(), Timescale::milli());

    // Above the QUIC varint range.
    assert!(Timescale::new(1u64 << 62).is_err());
    // Right at the top of the varint range is still valid.
    assert!(Timescale::new((1u64 << 62) - 1).is_ok());
}

#[test]
fn test_convert_to_finer() {
    let time_ms = Timestamp::from_millis(5000).unwrap();
    let time_us = time_ms.convert(Timescale::micro()).unwrap();
    assert_eq!(time_us.scale(), Timescale::micro());
    assert_eq!(time_us.as_micros(), 5_000_000);
}

#[test]
fn test_convert_to_coarser() {
    let time_ms = Timestamp::from_millis(5000).unwrap();
    let time_s = time_ms.convert(Timescale::second()).unwrap();
    assert_eq!(time_s.scale(), Timescale::second());
    assert_eq!(time_s.as_secs(), 5);
}

#[test]
fn test_convert_precision_loss() {
    // 1234 ms = 1.234 s, rounds down to 1 s
    let time_ms = Timestamp::from_millis(1234).unwrap();
    let time_s = time_ms.convert(Timescale::second()).unwrap();
    assert_eq!(time_s.as_secs(), 1);
}

#[test]
fn test_convert_roundtrip() {
    let original = Timestamp::from_millis(5000).unwrap();
    let as_micros = original.convert(Timescale::micro()).unwrap();
    let back = as_micros.convert(Timescale::milli()).unwrap();
    assert_eq!(original.value(), back.value());
    assert_eq!(original.scale(), back.scale());
}

#[test]
fn test_convert_same_scale() {
    let time = Timestamp::from_millis(5000).unwrap();
    let converted = time.convert(Timescale::milli()).unwrap();
    assert_eq!(time, converted);
}

#[test]
fn test_add_same_scale() {
    let a = Timestamp::from_millis(1000).unwrap();
    let b = Timestamp::from_millis(2000).unwrap();
    let c = a.checked_add(b).unwrap();
    assert_eq!(c.as_millis(), 3000);
    assert_eq!(c.scale(), Timescale::milli());
}

#[test]
fn test_add_mismatched_scale() {
    let a = Timestamp::from_millis(1000).unwrap();
    let b = Timestamp::from_micros(1000).unwrap();
    assert!(a.checked_add(b).is_err());
}

#[test]
fn test_new_const_matches_fallible() {
    let c: Timestamp = Timestamp::new_const(42, Timescale::micro());
    assert_eq!(c, Timestamp::new(42, Timescale::micro()).unwrap());
}

#[test]
fn test_zero_is_scale_aware() {
    // ZERO is second-scale. is_zero() sees the value regardless of scale, but
    // equality is structural, so it's not interchangeable with 0 at another scale.
    assert!(Timestamp::zero().is_zero());
    let zero_ms = Timestamp::from_millis(0).unwrap();
    assert!(zero_ms.is_zero());
    assert_ne!(Timestamp::zero(), zero_ms);
    assert_ne!(Timestamp::zero().cmp(&zero_ms), std::cmp::Ordering::Equal);
}

#[test]
fn test_sub_underflow() {
    let a = Timestamp::from_millis(1000).unwrap();
    let b = Timestamp::from_millis(2000).unwrap();
    assert!(a.checked_sub(b).is_err());
}

#[test]
fn test_max_same_scale() {
    let a = Timestamp::from_secs(5).unwrap();
    let b = Timestamp::from_secs(10).unwrap();
    assert_eq!(a.max(b), b);
    assert_eq!(b.max(a), b);
}

#[test]
fn test_max_cross_scale() {
    // `Ord::max` compares across scales (no panic).
    let a = Timestamp::from_millis(1).unwrap();
    let b = Timestamp::from_secs(1).unwrap();
    assert_eq!(a.max(b), b);
}

#[test]
fn test_ordering_same_scale() {
    let a = Timestamp::from_secs(1).unwrap();
    let b = Timestamp::from_secs(2).unwrap();
    assert!(a < b);
    assert!(b > a);
    assert_eq!(a, a);
}

#[test]
fn test_ordering_across_known_scales() {
    // Cross-scale ordering normalizes to a common scale.
    let one_sec = Timestamp::from_secs(1).unwrap();
    let two_ms = Timestamp::from_millis(2).unwrap();
    assert!(one_sec > two_ms);
    assert!(two_ms < one_sec);

    // Temporally-equivalent timestamps with different representations are NOT
    // Equal under cmp: derived Eq compares fields, and Ord must agree.
    let one_sec_b = Timestamp::from_millis(1000).unwrap();
    assert_ne!(one_sec.cmp(&one_sec_b), std::cmp::Ordering::Equal);
    assert_ne!(one_sec, one_sec_b);
    assert_eq!(one_sec.cmp(&one_sec), std::cmp::Ordering::Equal);

    // Mixed-scale sort lands in correct temporal order.
    let mut items = [
        Timestamp::from_secs(2).unwrap(),
        Timestamp::from_millis(500).unwrap(),
        Timestamp::from_micros(1_500_000).unwrap(),
    ];
    items.sort_by(|a, b| a.cmp(b));
    assert_eq!(items[0], Timestamp::from_millis(500).unwrap());
    assert_eq!(items[1], Timestamp::from_micros(1_500_000).unwrap());
    assert_eq!(items[2], Timestamp::from_secs(2).unwrap());
}

#[test]
fn test_duration_conversion() {
    let duration = Duration::from_secs(5);
    let time = Timestamp::try_from_duration(duration).unwrap();
    assert_eq!(time.scale(), Timescale::nano());
    assert_eq!(time.as_secs(), 5);

    let duration_back = time.to_duration();
    assert_eq!(duration_back.as_secs(), 5);
}

#[test]
fn test_debug_format_units() {
    let t = Timestamp::from_millis(100_000).unwrap();
    assert_eq!(t.debug_string(), "100s");

    let t = Timestamp::from_millis(100).unwrap();
    assert_eq!(t.debug_string(), "100ms");

    let t = Timestamp::from_micros(1500).unwrap();
    assert_eq!(t.debug_string(), "1500µs");

    let t = Timestamp::from_micros(1000).unwrap();
    assert_eq!(t.debug_string(), "1ms");
}

#[test]
fn test_new() {
    let t = Timestamp::new(5000, Timescale::milli()).unwrap();
    assert_eq!(t.value(), 5000);
    assert_eq!(t.scale(), Timescale::milli());
    assert_eq!(t.as_millis(), 5000);
}

#[test]
fn test_custom_scale_convert() {
    // 120 units at 60Hz = 2 seconds, expressed at 1000Hz = 2000 ms.
    let scale_60 = Timescale::new(60).unwrap();
    let t = Timestamp::new(120, scale_60)
        .unwrap()
        .convert(Timescale::milli())
        .unwrap();
    assert_eq!(t.scale(), Timescale::milli());
    assert_eq!(t.as_millis(), 2000);
}

#[test]
fn the_clock_stamps_milliseconds() {
    let clock = Clock::start();
    let a = Timestamp::now(&clock).unwrap();
    let b = Timestamp::now(&clock).unwrap();
    assert_eq!(a.scale(), Timescale::milli());
    // Well past 2020 and not going back.
    assert!(a.value() > 0);
    assert!(a <= b);
}

#[test]
fn instants_saturate() {
    let early = Instant { nanos: 5 };
    let late = Instant { nanos: 12 };
    assert_eq!(late.since(early), Duration { nanos: 7 });
    assert_eq!(early.since(late), Duration { nanos: 0 });
}

#[test]
fn a_reading_is_moved_back() {
    assert_eq!(jittered(Ok(70_000_000_000), 1), 69_999_000_000);
    assert_eq!(jittered(Err(5), 2), -2_000_005);
    assert_eq!(jittered(Ok(u128::MAX), 0), i128::MAX / 2);
    assert_eq!(jittered(Err(u128::MAX), 0), -(i128::MAX / 4));
}

#[test]
fn a_later_moment_gives_no_smaller_timestamp() {
    let epoch: i128 = 1_577_836_800_000_000_000;
    let anchor = Instant { nanos: 10_000_000 };
    let clock = Clock { started: std::time::Instant::now(), anchor, system: epoch + 5_000_000 };
    let at = |nanos: u128| Timestamp::from_instant(&clock, Instant { nanos }).unwrap().value();
    assert_eq!(at(4_000_000), 0);
    assert_eq!(at(6_999_999), 1);
    assert_eq!(at(10_000_000), 5);
    assert_eq!(at(11_999_999), 6);
    assert_eq!(at(12_000_000), 7);
}

#[test]
fn a_timestamp_ends_with_the_varint_range() {
    let epoch: i128 = 1_577_836_800_000_000_000;
    let clock = Clock {
        started: std::time::Instant::now(),
        anchor: Instant { nanos: 0 },
        system: epoch,
    };
    let last: u128 = ((1 << 62) - 1) * 1_000_000 + 999_999;
    let stamp = Timestamp::from_instant(&clock, Instant { nanos: last }).unwrap();
    assert_eq!(stamp.value(), (1 << 62) - 1);
    assert!(Timestamp::from_instant(&clock, Instant { nanos: last + 1 }).is_err());
}

#[test]
fn the_clock_is_read_from_its_anchor_on() {
    let second = std::time::Duration::from_secs(1);
    let started = std::time::Instant::now().checked_sub(second).unwrap();
    let clock = Clock { started, ..Clock::start() };
    let first = clock.read();
    assert!(first.nanos >= clock.anchor.nanos + second.as_nanos());
    assert!(clock.read().nanos >= first.nanos);

    assert_eq!(clock.point(Some(7), 0).nanos, clock.anchor.nanos + 7);
    assert_eq!(clock.point(None, 7).nanos, clock.anchor.nanos - 7);
    assert_eq!(clock.point(Some(u128::MAX), 0).nanos, u128::MAX);
    assert_eq!(clock.point(None, u128::MAX).nanos, 0);
}

#[test]
fn a_scale_may_lie_beyond_the_varint_range() {
    let units = u64::MAX;
    assert!(Timescale::new(units).is_err());
    assert_eq!(Timescale::from_nonzero(units).as_u64(), units);
    assert_eq!(Timescale::from_nonzero(1_000), Timescale::milli());
    let fine = Timestamp::new(units / 8, Timescale::from_nonzero(units)).unwrap();
    assert_eq!(fine.convert(Timescale::milli()).unwrap().value(), 124);
}
