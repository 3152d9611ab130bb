use ftvf::{gcd, FakeNowSource, NowSource, PreciseInstant, Rate, RealtimeNowSource, TimePoint};

#[test]
fn gcdtest() {
    let test_set = [(60000, 1001, 1), (64, 288, 32), (114411, 258522, 33)];
    for (a, b, answer) in test_set.into_iter() {
        assert_eq!(gcd(a, b), answer);
    }
}

#[test]
fn instant_residual() {
    let base = std::time::Instant::now();
    for n in 1..100 {
        let duration = std::time::Duration::new(0, n);
        let plussed = base + duration;
        let difference = plussed - base;
        assert_eq!(difference, duration);
    }
}

#[test]
fn rate_reduction() {
    // 60000/1001 is already reduced: 1001 seconds hold 1001e9 nanoseconds,
    // 16683333 whole nanoseconds per tick and 20000/60000 of one more.
    let ntsc = Rate::per_second(60000, 1001);
    assert_eq!(ntsc.numerator, 60000);
    assert_eq!(ntsc.denominator, 1001);
    assert_eq!(ntsc.duration_per, 16683333);
    assert_eq!(ntsc.residual_per, 20000);
    // 64/288 reduces by 32 to 2/9: four and a half seconds per tick.
    let reduced = Rate::per_second(64, 288);
    assert_eq!(reduced.numerator, 2);
    assert_eq!(reduced.denominator, 9);
    assert_eq!(reduced.duration_per, 4_500_000_000);
    assert_eq!(reduced.residual_per, 0);
    // Equality goes by the reduced ratio alone.
    assert!(Rate::per_second(64, 288) == Rate::per_second(2, 9));
    assert!(Rate::per_second(3, 1) != Rate::per_second(2, 9));
}

#[test]
fn exact_periodicity() {
    // Stepping numerator times advances by exactly denominator seconds and
    // returns the residual to zero: rate 3/1 steps 333333333, 333333333,
    // and 333333334 nanoseconds in turn.
    let rate = Rate::per_second(3, 1);
    let start = PreciseInstant::from(TimePoint { nanos: 7 });
    let one = start.next(&rate);
    assert_eq!(one.at.nanos, 7 + 333_333_333);
    assert_eq!(one.residual, 1);
    let two = one.next(&rate);
    assert_eq!(two.at.nanos, 7 + 666_666_666);
    assert_eq!(two.residual, 2);
    let three = two.next(&rate);
    assert_eq!(three.at.nanos, 7 + 1_000_000_000);
    assert_eq!(three.residual, 0);
    // The NTSC rate comes back to a whole boundary after 60000 steps of
    // 1001 seconds, with no drift.
    let ntsc = Rate::per_second(60000, 1001);
    let mut p = PreciseInstant::from(TimePoint { nanos: 0 });
    for _ in 0..60000 {
        p = p.next(&ntsc);
    }
    assert_eq!(p.at.nanos, 1001 * 1_000_000_000);
    assert_eq!(p.residual, 0);
}

#[test]
fn nth_matches_single_steps() {
    let ntsc = Rate::per_second(60000, 1001);
    let start = PreciseInstant::from(TimePoint { nanos: 0 });
    let mut stepped = start;
    for _ in 0..500 {
        stepped = stepped.next(&ntsc);
    }
    let jumped = start.nth(500, &ntsc);
    assert_eq!(jumped.at.nanos, stepped.at.nanos);
    assert_eq!(jumped.residual, stepped.residual);
}

#[test]
fn last_tick_before_lands_at_or_before_target() {
    let rate = Rate::per_second(3, 1);
    let start = PreciseInstant::from(TimePoint { nanos: 0 });
    let near = start.last_tick_before(&TimePoint { nanos: 500_000_000 }, &rate);
    assert_eq!(near.at.nanos, 333_333_333);
    assert_eq!(near.residual, 1);
    // A target before the instant stays put.
    let stay = near.last_tick_before(&TimePoint { nanos: 100 }, &rate);
    assert_eq!(stay.at.nanos, near.at.nanos);
}

#[test]
fn config_headroom() {
    assert!(ftvf::config_fits(&Rate::per_second(60000, 1001), 120));
    assert!(ftvf::config_fits(&Rate::per_second(1, 1), u32::MAX));
    // A day-long tick with the full ceiling cannot be stepped safely.
    assert!(!ftvf::config_fits(&Rate::per_second(1, 86400), u32::MAX));
}

#[test]
fn fake_now_source() {
    let mut source = FakeNowSource::default();
    assert_eq!(source.now.nanos, 0);
    source.advance(250);
    source.advance(750);
    assert_eq!(source.now, TimePoint { nanos: 1000 });
    assert_eq!(source.now(), TimePoint { nanos: 1000 });
}

#[test]
fn realtime_now_source_is_monotonic() {
    let mut source = RealtimeNowSource::new();
    let first = source.now();
    let second = source.now();
    assert!(second.nanos >= first.nanos);
}
