use ksx_backend::latency::{Clock, ClockSource, LatencySummary, BUDGET_P99_US};

#[test]
fn ticks_convert_to_microseconds_without_overflow() {
    let clock = Clock {
        source: ClockSource::Fixed(0),
        ticks_per_sec: 10_000_000, // 100 ns ticks, a common QPC rate
    };
    assert_eq!(clock.ticks_to_micros(0), 0);
    assert_eq!(clock.ticks_to_micros(10), 1);
    assert_eq!(clock.ticks_to_micros(10_000_000), 1_000_000);
    // A full u64 of ticks must not overflow the intermediate multiply.
    assert_eq!(clock.ticks_to_micros(u64::MAX), u64::MAX / 10);
}

#[test]
fn zero_frequency_degrades_to_zero_not_divide_by_zero() {
    let clock = Clock {
        source: ClockSource::Fixed(0),
        ticks_per_sec: 0,
    };
    assert_eq!(clock.ticks_to_micros(12_345), 0);
}

#[test]
fn empty_summary_renders_and_is_not_in_budget() {
    let s = LatencySummary::default();
    assert!(!s.within_budget());
    assert!(s.render().contains("nothing to measure"), "{}", s.render());
}

#[test]
fn platform_clock_moves_forward() {
    let clock = Clock::platform();
    assert!(clock.ticks_per_sec > 0);
    let a = clock.now();
    let b = clock.now();
    assert!(b >= a, "monotonic clock went backwards: {a} then {b}");
}

#[test]
fn budget_verdict_flips_at_the_p99_threshold() {
    let under = LatencySummary {
        count: 10,
        p50_us: 100,
        p99_us: BUDGET_P99_US - 1,
        max_us: 900,
    };
    let over = LatencySummary {
        p99_us: BUDGET_P99_US,
        ..under
    };
    assert!(under.within_budget());
    assert!(under.render().contains("[OK]"), "{}", under.render());
    assert!(!over.within_budget());
    assert!(over.render().contains("[WARN]"), "{}", over.render());
}

#[test]
fn render_spells_the_whole_line() {
    let s = LatencySummary {
        count: 3,
        p50_us: 500,
        p99_us: 2000,
        max_us: 2000,
    };
    assert_eq!(
        s.render(),
        "latency capture→submit over 3 update(s): p50 500 us, p99 2000 us, max 2000 us  [WARN] budget p99 < 1000 us"
    );
    let ok = LatencySummary {
        count: 1,
        p50_us: 7,
        p99_us: 7,
        max_us: 7,
    };
    assert_eq!(
        ok.render(),
        "latency capture→submit over 1 update(s): p50 7 us, p99 7 us, max 7 us  [OK]   budget p99 < 1000 us"
    );
}

#[test]
fn a_stamp_from_the_future_saturates_instead_of_panicking() {
    let clock = Clock {
        source: ClockSource::Fixed(0),
        ticks_per_sec: 1_000_000,
    };
    assert_eq!(clock.micros_since(clock.now(), u64::MAX), 0);
    // now = 1_000_000 ticks at 1 MHz; a stamp 500 ticks ago is 500 us.
    assert_eq!(clock.micros_since(1_000_000, 1_000_000 - 500), 500);
}

#[test]
fn a_fixed_clock_reads_its_value() {
    let clock = Clock {
        source: ClockSource::Fixed(42),
        ticks_per_sec: 1,
    };
    assert_eq!(clock.now(), 42);
    // one tick per second: 3 ticks are three million microseconds
    assert_eq!(clock.ticks_to_micros(3), 3_000_000);
}

#[test]
fn an_impossible_counter_rate_makes_latency_unmeasurable_not_a_division_by_zero() {
    assert_eq!(ksx_backend::latency::counter_rate(0), 1);
    assert_eq!(ksx_backend::latency::counter_rate(-5), 1);
    assert_eq!(ksx_backend::latency::counter_rate(10_000_000), 10_000_000);
}
