//! Time, counted in whole nanoseconds.
use vstd::prelude::*;

verus! {

/// A span of time.
#[derive(Clone, Copy, Debug, PartialEq, Eq)]
pub struct Duration {
    pub nanos: u128,
}

/// How many nanoseconds a second has.
pub const NANOS_PER_SEC: u128 = 1_000_000_000;

impl Duration {
    /// The span of `secs` whole seconds.
    pub fn from_secs(secs: u64) -> (d: Duration)
        ensures
            d.nanos == secs * NANOS_PER_SEC,
    {
        let wide: u128 = secs as u128;
        assert(wide * NANOS_PER_SEC <= u64::MAX * NANOS_PER_SEC) by (nonlinear_arith)
            requires
                wide <= u64::MAX,
        ;
        Duration { nanos: wide * NANOS_PER_SEC }
    }

    /// The span of `nanos` nanoseconds.
    pub fn from_nanos(nanos: u128) -> (d: Duration)
        ensures
            d.nanos == nanos,
    {
        Duration { nanos }
    }

    /// The span in nanoseconds.
    pub fn as_nanos(&self) -> (nanos: u128)
        ensures
            nanos == self.nanos,
    {
        self.nanos
    }
}

/// `std::time::Instant`, a reading of the machine's monotonic clock. Nothing is
/// known of what a value of it holds.
#[verifier::external_type_specification]
#[verifier::external_body]
pub struct ExInstant(std::time::Instant);

/// Calls `std::time::Instant::now`. The reading depends on the clock, so nothing is
/// claimed of it.
#[verifier::external_body]
fn now() -> std::time::Instant {
    std::time::Instant::now()
}

/// Calls `std::time::Instant::elapsed` and counts the span in nanoseconds. How much time
/// has passed depends on the clock, so nothing is claimed of it.
#[verifier::external_body]
fn elapsed(since: &std::time::Instant) -> Duration {
    Duration { nanos: since.elapsed().as_nanos() }
}

/// `at` is a reading of the clock: what [`std::time::Instant::now`] may return.
pub closed spec fn clock_reads(at: std::time::Instant) -> bool {
    call_ensures(now, (), at)
}

/// `span` is a reading of the time since `since`: what [`std::time::Instant::elapsed`] on
/// `since` may return.
pub closed spec fn passes_since(since: std::time::Instant, span: Duration) -> bool {
    call_ensures(elapsed, (&since,), span)
}

/// Reads the clock.
pub fn read_clock() -> (at: std::time::Instant)
    ensures
        clock_reads(at),
{
    now()
}

/// Reads how much time has passed since `since`.
pub fn time_since(since: &std::time::Instant) -> (span: Duration)
    ensures
        passes_since(*since, span),
{
    elapsed(since)
}

} // verus!
