//! Why a run stopped and what its iterations did.
use vstd::prelude::*;

use crate::index_map::IndexMap;
use crate::time::Duration;

verus! {

/// Why a run stopped.
#[derive(Debug, PartialEq, Eq)]
pub enum StopReason {
    /// No rule changes the e-graph any more.
    Saturated,
    /// The limit on iterations was reached, after this many.
    IterationLimit(usize),
    /// The limit on e-nodes was passed, at this size.
    NodeLimit(usize),
    /// The limit on time was passed, at this time.
    TimeLimit(Duration),
    /// A count would have passed what a machine word holds.
    Overflow,
    /// A hook gave this reason.
    Other(String),
}

impl Clone for StopReason {
    fn clone(&self) -> (r: Self)
        ensures
            r == *self,
    {
        match self {
            StopReason::Saturated => StopReason::Saturated,
            StopReason::IterationLimit(n) => StopReason::IterationLimit(*n),
            StopReason::NodeLimit(n) => StopReason::NodeLimit(*n),
            StopReason::TimeLimit(d) => StopReason::TimeLimit(*d),
            StopReason::Overflow => StopReason::Overflow,
            StopReason::Other(text) => StopReason::Other(text.clone()),
        }
    }
}

/// A result, or the reason to stop.
pub type RunnerResult<T> = Result<T, StopReason>;

/// What one iteration did.
#[derive(Debug)]
pub struct Iteration<D> {
    /// How often each rule was applied. Rules that were not applied are left out.
    pub applied: IndexMap<usize>,
    /// The size of the e-graph at the start.
    pub egraph_nodes: usize,
    /// The number of e-classes at the start.
    pub egraph_classes: usize,
    /// The time that the hooks took.
    pub hook_time: Duration,
    /// The time that the search took.
    pub search_time: Duration,
    /// The time that applying the matches took.
    pub apply_time: Duration,
    /// The time that rebuilding took.
    pub rebuild_time: Duration,
    /// The time from the start of the search to the end of the iteration.
    pub total_time: Duration,
    /// What rebuilding returned.
    pub n_rebuilds: usize,
    /// Data of the caller's own.
    pub data: D,
    /// Why the run stops with this iteration, if it does.
    pub stop_reason: Option<StopReason>,
}

/// A reason that is copied stays the same reason.
pub proof fn law_copied_reason_is_the_same(reason: &StopReason, copy: StopReason)
    requires
        call_ensures(<StopReason as Clone>::clone, (reason,), copy),
    ensures
        copy == *reason,
{
}

} // verus!
