//! What holds of the limits, whatever they are.
use vstd::prelude::*;

use crate::egraph::EGraph;
use crate::hook::LocalHook;
use crate::limits::{LimitReading, LocalRunnerLimits};
use crate::outcome::{RunnerResult, StopReason};
use crate::runner::RunnerLocal;
use crate::scheduler::LocalRewriteScheduler;
use crate::time::{Duration, passes_since};

verus! {

/// A run goes on exactly when the time and the size that were read are at most their limits
/// and its iterations are fewer than theirs. A reason to stop names what was read, and the
/// first of time, size and iterations that is past its limit.
pub proof fn law_run_goes_on_within_its_limits(
    limits: &LocalRunnerLimits,
    iteration: usize,
    reading: LimitReading,
    res: RunnerResult<()>,
)
    requires
        call_ensures(LocalRunnerLimits::judge, (limits, iteration, reading), res),
    ensures
        res is Ok <==> reading.elapsed.nanos <= limits.time_limit.nanos && reading.size
            <= limits.node_limit && iteration < limits.iter_limit,
        reading.elapsed.nanos > limits.time_limit.nanos ==> res == Err::<(), _>(
            StopReason::TimeLimit(reading.elapsed),
        ),
        reading.elapsed.nanos <= limits.time_limit.nanos && reading.size > limits.node_limit
            ==> res == Err::<(), _>(StopReason::NodeLimit(reading.size)),
        reading.elapsed.nanos <= limits.time_limit.nanos && reading.size <= limits.node_limit
            && iteration >= limits.iter_limit ==> res == Err::<(), _>(
            StopReason::IterationLimit(iteration),
        ),
{
}

/// A reason that the limits give is true.
pub proof fn law_limit_that_is_named_was_passed(
    limits: &LocalRunnerLimits,
    iteration: usize,
    reading: LimitReading,
    reason: StopReason,
)
    requires
        call_ensures(LocalRunnerLimits::judge, (limits, iteration, reading), Err(reason)),
    ensures
        match reason {
            StopReason::TimeLimit(span) => span.nanos > limits.time_limit.nanos,
            StopReason::NodeLimit(size) => size > limits.node_limit,
            StopReason::IterationLimit(n) => n >= limits.iter_limit,
            _ => false,
        },
{
}

/// What goes on goes on with less time, a smaller e-graph and fewer iterations too, and
/// under limits that are no tighter.
pub proof fn law_limits_are_monotone(
    limits: &LocalRunnerLimits,
    iteration: usize,
    reading: LimitReading,
    looser: &LocalRunnerLimits,
    earlier: usize,
    smaller: LimitReading,
    res: RunnerResult<()>,
)
    requires
        call_ensures(LocalRunnerLimits::judge, (limits, iteration, reading), Ok(())),
        call_ensures(LocalRunnerLimits::judge, (looser, earlier, smaller), res),
        smaller.elapsed.nanos <= reading.elapsed.nanos,
        smaller.size <= reading.size,
        earlier <= iteration,
        limits.time_limit.nanos <= looser.time_limit.nanos,
        limits.node_limit <= looser.node_limit,
        limits.iter_limit <= looser.iter_limit,
    ensures
        res is Ok,
{
}

/// What is held against the limits is the time since the run started and the size of the
/// e-graph.
pub proof fn law_limits_are_held_against_clock_and_size<G: EGraph>(
    limits: &LocalRunnerLimits,
    iteration: usize,
    egraph: &G,
    res: RunnerResult<()>,
) -> (read: (Duration, usize))
    requires
        call_ensures(LocalRunnerLimits::check_limits::<G>, (limits, iteration, egraph), res),
    ensures
        limits.start_time matches Some(since) && passes_since(since, read.0),
        call_ensures(G::total_size, (egraph,), read.1),
        res is Ok <==> read.0.nanos <= limits.time_limit.nanos && read.1 <= limits.node_limit
            && iteration < limits.iter_limit,
        read.0.nanos > limits.time_limit.nanos ==> res == Err::<(), _>(
            StopReason::TimeLimit(read.0),
        ),
        read.0.nanos <= limits.time_limit.nanos && read.1 > limits.node_limit ==> res == Err::<
            (),
            _,
        >(StopReason::NodeLimit(read.1)),
        read.0.nanos <= limits.time_limit.nanos && read.1 <= limits.node_limit && iteration
            >= limits.iter_limit ==> res == Err::<(), _>(StopReason::IterationLimit(iteration)),
{
    let reading = choose|reading: LimitReading| #[trigger]
        crate::limits::reads(*limits, *egraph, reading) && res == limits.verdict(
            iteration,
            reading,
        );
    (reading.elapsed, reading.size)
}

/// A runner holds its own e-graph and the number of its iterations against its limits.
pub proof fn law_runner_checks_its_own_limits<
    G: EGraph,
    S: LocalRewriteScheduler<G>,
    H: LocalHook<G>,
>(runner: &RunnerLocal<G, S, H>, res: RunnerResult<()>) -> (read: (Duration, usize))
    requires
        call_ensures(RunnerLocal::<G, S, H>::check_limits, (runner,), res),
    ensures
        runner.limits.start_time matches Some(since) && passes_since(since, read.0),
        call_ensures(G::total_size, (&runner.egraph,), read.1),
        res is Ok <==> read.0.nanos <= runner.limits.time_limit.nanos && read.1
            <= runner.limits.node_limit && runner.iterations@.len() < runner.limits.iter_limit,
        read.0.nanos > runner.limits.time_limit.nanos ==> res == Err::<(), _>(
            StopReason::TimeLimit(read.0),
        ),
        read.0.nanos <= runner.limits.time_limit.nanos && read.1 > runner.limits.node_limit
            ==> res == Err::<(), _>(StopReason::NodeLimit(read.1)),
        read.0.nanos <= runner.limits.time_limit.nanos && read.1 <= runner.limits.node_limit
            && runner.iterations@.len() >= runner.limits.iter_limit ==> res == Err::<(), _>(
            StopReason::IterationLimit(runner.iterations@.len() as usize),
        ),
{
    assert(runner.iterations.len() == runner.iterations@.len());
    let reading = choose|reading: LimitReading| #[trigger]
        crate::limits::reads(runner.limits, runner.egraph, reading) && res
            == runner.limits.verdict(runner.iterations@.len() as usize, reading);
    (reading.elapsed, reading.size)
}

} // verus!
