//! The limits of a run.
use vstd::prelude::*;

use crate::egraph::EGraph;
use crate::outcome::{RunnerResult, StopReason};
use crate::time::{Duration, passes_since, time_since};

verus! {

/// How far a run may go.
#[derive(Debug)]
pub struct LocalRunnerLimits {
    /// The number of iterations at which the run stops.
    pub iter_limit: usize,
    /// The size of the e-graph past which the run stops.
    pub node_limit: usize,
    /// The time past which the run stops.
    pub time_limit: Duration,
    /// When the run started, if it has.
    pub start_time: Option<std::time::Instant>,
}

/// What the limits are held against.
pub struct LimitReading {
    /// The time since the run started.
    pub elapsed: Duration,
    /// The size of the e-graph.
    pub size: usize,
}

/// The reading is of the time since the run started and of the size of this e-graph.
pub open spec fn reads<G: EGraph>(
    limits: LocalRunnerLimits,
    egraph: G,
    reading: LimitReading,
) -> bool {
    &&& limits.start_time matches Some(since) && passes_since(since, reading.elapsed)
    &&& call_ensures(G::total_size, (&egraph,), reading.size)
}

impl LocalRunnerLimits {
    /// Whether a run may go on after `iteration` iterations, or the first limit that
    /// keeps it from it: the time, the size, the number of iterations.
    pub open spec fn verdict(self, iteration: usize, reading: LimitReading) -> RunnerResult<()> {
        if reading.elapsed.nanos > self.time_limit.nanos {
            Err(StopReason::TimeLimit(reading.elapsed))
        } else if reading.size > self.node_limit {
            Err(StopReason::NodeLimit(reading.size))
        } else if iteration >= self.iter_limit {
            Err(StopReason::IterationLimit(iteration))
        } else {
            Ok(())
        }
    }

    /// Holds a reading against the limits.
    pub fn judge(&self, iteration: usize, reading: LimitReading) -> (res: RunnerResult<()>)
        ensures
            res == self.verdict(iteration, reading),
    {
        if reading.elapsed.nanos > self.time_limit.nanos {
            return Err(StopReason::TimeLimit(reading.elapsed));
        }
        if reading.size > self.node_limit {
            return Err(StopReason::NodeLimit(reading.size));
        }
        if iteration >= self.iter_limit {
            return Err(StopReason::IterationLimit(iteration));
        }
        Ok(())
    }

    /// Holds the time that has passed and the size of the e-graph against the limits.
    pub fn check_limits<G: EGraph>(&self, iteration: usize, egraph: &G) -> (res: RunnerResult<()>)
        requires
            self.start_time is Some,
        ensures
            exists|reading: LimitReading|
                #[trigger] reads(*self, *egraph, reading) && res == self.verdict(iteration, reading),
    {
        let since = self.start_time.as_ref().unwrap();
        let reading = LimitReading { elapsed: time_since(since), size: egraph.total_size() };
        assert(reads(*self, *egraph, reading));
        self.judge(iteration, reading)
    }
}

} // verus!
