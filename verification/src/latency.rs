//! Capture→submit latency: the clock the capture stamps are read against, the
//! tick→microsecond conversion, and the one-line verdict against the budget
//! (p99 under one millisecond).
//!
//! The histogram itself lives with the output thread; what it hands back is a
//! [`LatencySummary`].

use vstd::prelude::*;

use crate::text::{decimal, push_decimal};

verus! {

/// The p99 budget, in microseconds.
pub const BUDGET_P99_US: u64 = 1000;

/// `std::time::Instant`: a moment of the monotonic clock.
#[verifier::external_type_specification]
#[verifier::external_body]
pub struct ExInstant(std::time::Instant);

/// `Instant::now`: nothing is promised of the moment it reads.
#[verifier::external_body]
fn instant_now() -> std::time::Instant {
    std::time::Instant::now()
}

/// `origin.elapsed()` in whole nanoseconds (truncated to 64 bits). It depends
/// on the time of the call, so nothing is promised of its value.
#[verifier::external_body]
fn nanos_since(origin: &std::time::Instant) -> u64 {
    origin.elapsed().as_nanos() as u64
}

/// Where a clock's ticks come from.
#[derive(Clone, Copy, Debug)]
pub enum ClockSource {
    /// Always the same tick count: a clock for tests and for backends whose
    /// stamps are not a real clock.
    Fixed(u64),
    /// Nanoseconds since the moment this clock was made.
    Monotonic(std::time::Instant),
}

/// A monotonic tick source paired with its tick rate, matching whatever unit
/// the capture backend stamps events in.
#[derive(Clone, Copy, Debug)]
pub struct Clock {
    pub source: ClockSource,
    pub ticks_per_sec: u64,
}

/// `ticks` at `ticks_per_sec`, in whole microseconds (rounded down and kept
/// to 64 bits); 0 when the rate is 0, which is "latency unmeasurable" rather
/// than a division by zero.
pub open spec fn micros(ticks: u64, ticks_per_sec: u64) -> u64 {
    if ticks_per_sec == 0 {
        0
    } else {
        ((ticks as int * 1_000_000) / (ticks_per_sec as int)) as u64
    }
}

/// The tick rate of a hardware counter from what the platform reported: a
/// rate that cannot be (zero or negative) is taken as 1 tick a second, which
/// makes latency unmeasurable rather than a division by zero.
pub fn counter_rate(reported: i64) -> (hz: u64)
    ensures
        hz == if reported <= 0 {
            1
        } else {
            reported as u64
        },
{
    if reported <= 0 {
        1
    } else {
        reported as u64
    }
}

impl Clock {
    /// Nanoseconds since this call.
    pub fn monotonic_nanos() -> (c: Clock)
        ensures
            c.ticks_per_sec == 1_000_000_000,
            c.source is Monotonic,
    {
        Clock { source: ClockSource::Monotonic(instant_now()), ticks_per_sec: 1_000_000_000 }
    }

    /// The clock `ksx run` uses when no platform counter is wired in.
    pub fn platform() -> (c: Clock)
        ensures
            c.ticks_per_sec == 1_000_000_000,
            c.source is Monotonic,
    {
        Clock::monotonic_nanos()
    }

    /// The current tick count.
    pub fn now(&self) -> (t: u64)
        ensures
            self.source matches ClockSource::Fixed(v) ==> t == v,
    {
        match &self.source {
            ClockSource::Fixed(v) => *v,
            ClockSource::Monotonic(origin) => nanos_since(origin),
        }
    }

    /// Ticks of this clock in microseconds. The intermediate product is wide
    /// enough for a full `u64` of ticks.
    pub fn ticks_to_micros(&self, ticks: u64) -> (us: u64)
        ensures
            us == micros(ticks, self.ticks_per_sec),
    {
        if self.ticks_per_sec == 0 {
            return 0;
        }
        let wide: u128 = (ticks as u128) * 1_000_000;
        assert(wide == ticks as int * 1_000_000);
        let q: u128 = wide / (self.ticks_per_sec as u128);
        q as u64
    }

    /// The interval from a capture stamp to `now`, in microseconds.
    /// Saturating: a stamp from the future (a backend whose stamps are not
    /// this clock's ticks) measures as zero instead of underflowing.
    pub fn micros_since(&self, now: u64, t_capture: u64) -> (us: u64)
        ensures
            us == micros(if now >= t_capture { (now - t_capture) as u64 } else { 0 }, self.ticks_per_sec),
    {
        let ticks = if now >= t_capture {
            now - t_capture
        } else {
            0
        };
        self.ticks_to_micros(ticks)
    }
}

/// One-line latency verdict.
#[derive(Clone, Copy, Debug, PartialEq, Eq, Structural)]
pub struct LatencySummary {
    pub count: u64,
    pub p50_us: u64,
    pub p99_us: u64,
    pub max_us: u64,
}

impl Default for LatencySummary {
    /// Nothing measured.
    fn default() -> (s: LatencySummary)
        ensures
            s == (LatencySummary { count: 0, p50_us: 0, p99_us: 0, max_us: 0 }),
    {
        LatencySummary { count: 0, p50_us: 0, p99_us: 0, max_us: 0 }
    }
}

/// The text [`LatencySummary::render`] prints.
pub open spec fn render_text(s: LatencySummary) -> Seq<char> {
    if s.count == 0 {
        "latency: no pad updates were submitted (nothing to measure)"@
    } else {
        "latency capture→submit over "@ + decimal(s.count as nat) + " update(s): p50 "@ + decimal(
            s.p50_us as nat,
        ) + " us, p99 "@ + decimal(s.p99_us as nat) + " us, max "@ + decimal(s.max_us as nat)
            + " us  "@ + (if s.spec_within_budget() {
            "[OK]  "@
        } else {
            "[WARN]"@
        }) + " budget p99 < "@ + decimal(BUDGET_P99_US as nat) + " us"@
    }
}

impl LatencySummary {
    pub open spec fn spec_within_budget(self) -> bool {
        self.count > 0 && self.p99_us < BUDGET_P99_US
    }

    /// `true` when there is enough data AND p99 is inside the budget.
    pub fn within_budget(&self) -> (b: bool)
        ensures
            b == self.spec_within_budget(),
    {
        self.count > 0 && self.p99_us < BUDGET_P99_US
    }

    pub fn render(&self) -> (text: String)
        ensures
            text@ == render_text(*self),
    {
        if self.count == 0 {
            return "latency: no pad updates were submitted (nothing to measure)".to_owned();
        }
        let mut s = "latency capture→submit over ".to_owned();
        push_decimal(&mut s, self.count);
        s.append(" update(s): p50 ");
        push_decimal(&mut s, self.p50_us);
        s.append(" us, p99 ");
        push_decimal(&mut s, self.p99_us);
        s.append(" us, max ");
        push_decimal(&mut s, self.max_us);
        s.append(" us  ");
        if self.within_budget() {
            s.append("[OK]  ");
        } else {
            s.append("[WARN]");
        }
        s.append(" budget p99 < ");
        push_decimal(&mut s, BUDGET_P99_US);
        s.append(" us");
        assert(s@ =~= render_text(*self));
        s
    }
}

} // verus!
