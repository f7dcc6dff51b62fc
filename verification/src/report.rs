//! A summary of a run.
use vstd::prelude::*;

use crate::egraph::EGraph;
use crate::outcome::{Iteration, StopReason};
use crate::runner::RunnerLocal;
use crate::time::Duration;

verus! {

/// What a run did as a whole.
#[derive(Debug)]
pub struct Report {
    /// Why the run stopped.
    pub stop_reason: StopReason,
    /// The number of iterations.
    pub iterations: usize,
    /// The number of e-nodes in all e-classes.
    pub egraph_nodes: usize,
    /// The number of e-classes.
    pub egraph_classes: usize,
    /// The size of the e-graph.
    pub memo_size: usize,
    /// What rebuilding returned, in all iterations together.
    pub rebuilds: usize,
    /// The time that the searches took.
    pub search_time: Duration,
    /// The time that applying the matches took.
    pub apply_time: Duration,
    /// The time that rebuilding took.
    pub rebuild_time: Duration,
    /// The time that the iterations took.
    pub total_time: Duration,
}

/// The sum of `amount` over the iterations.
pub open spec fn sum_of(
    iterations: Seq<Iteration<()>>,
    amount: spec_fn(Iteration<()>) -> nat,
) -> nat
    decreases iterations.len(),
{
    if iterations.len() == 0 {
        0
    } else {
        sum_of(iterations.drop_last(), amount) + amount(iterations.last())
    }
}

/// What rebuilding returned, in all iterations together.
pub open spec fn rebuilds_in(iterations: Seq<Iteration<()>>) -> nat {
    sum_of(iterations, |it: Iteration<()>| it.n_rebuilds as nat)
}

/// The time of the searches, in nanoseconds.
pub open spec fn search_nanos(iterations: Seq<Iteration<()>>) -> nat {
    sum_of(iterations, |it: Iteration<()>| it.search_time.nanos as nat)
}

/// The time of applying the matches, in nanoseconds.
pub open spec fn apply_nanos(iterations: Seq<Iteration<()>>) -> nat {
    sum_of(iterations, |it: Iteration<()>| it.apply_time.nanos as nat)
}

/// The time of rebuilding, in nanoseconds.
pub open spec fn rebuild_nanos(iterations: Seq<Iteration<()>>) -> nat {
    sum_of(iterations, |it: Iteration<()>| it.rebuild_time.nanos as nat)
}

/// The time of the iterations, in nanoseconds.
pub open spec fn total_nanos(iterations: Seq<Iteration<()>>) -> nat {
    sum_of(iterations, |it: Iteration<()>| it.total_time.nanos as nat)
}

/// A sum over the first `n + 1` iterations is the one over the first `n` and the amount
/// of the next, and no more than the sum over all.
proof fn lemma_sum_step(
    iterations: Seq<Iteration<()>>,
    amount: spec_fn(Iteration<()>) -> nat,
    n: int,
)
    requires
        0 <= n < iterations.len(),
    ensures
        sum_of(iterations.take(n + 1), amount) == sum_of(iterations.take(n), amount) + amount(
            iterations[n],
        ),
        sum_of(iterations.take(n + 1), amount) <= sum_of(iterations, amount),
    decreases iterations.len() - n,
{
    assert(iterations.take(n + 1).drop_last() =~= iterations.take(n));
    if n + 1 == iterations.len() {
        assert(iterations.take(n + 1) =~= iterations);
    } else {
        lemma_sum_step(iterations, amount, n + 1);
    }
}

impl<G: EGraph, S, H> RunnerLocal<G, S, H> {
    /// Summarizes a run that has stopped.
    pub fn report(&self) -> (report: Report)
        requires
            self.stop_reason is Some,
            rebuilds_in(self.iterations@) <= usize::MAX,
            search_nanos(self.iterations@) <= u128::MAX,
            apply_nanos(self.iterations@) <= u128::MAX,
            rebuild_nanos(self.iterations@) <= u128::MAX,
            total_nanos(self.iterations@) <= u128::MAX,
        ensures
            Some(report.stop_reason) == self.stop_reason,
            report.iterations == self.iterations@.len(),
            call_ensures(G::total_number_of_nodes, (&self.egraph,), report.egraph_nodes),
            call_ensures(G::number_of_classes, (&self.egraph,), report.egraph_classes),
            call_ensures(G::total_size, (&self.egraph,), report.memo_size),
            report.rebuilds == rebuilds_in(self.iterations@),
            report.search_time.nanos == search_nanos(self.iterations@),
            report.apply_time.nanos == apply_nanos(self.iterations@),
            report.rebuild_time.nanos == rebuild_nanos(self.iterations@),
            report.total_time.nanos == total_nanos(self.iterations@),
    {
        let ghost all = self.iterations@;
        let mut rebuilds: usize = 0;
        let mut search: u128 = 0;
        let mut apply: u128 = 0;
        let mut rebuild: u128 = 0;
        let mut total: u128 = 0;
        let mut i: usize = 0;
        assert(all.take(0) =~= Seq::<Iteration<()>>::empty());
        while i < self.iterations.len()
            invariant
                all == self.iterations@,
                i <= all.len(),
                rebuilds == rebuilds_in(all.take(i as int)),
                search == search_nanos(all.take(i as int)),
                apply == apply_nanos(all.take(i as int)),
                rebuild == rebuild_nanos(all.take(i as int)),
                total == total_nanos(all.take(i as int)),
                rebuilds_in(all) <= usize::MAX,
                search_nanos(all) <= u128::MAX,
                apply_nanos(all) <= u128::MAX,
                rebuild_nanos(all) <= u128::MAX,
                total_nanos(all) <= u128::MAX,
            decreases all.len() - i,
        {
            let it = &self.iterations[i];
            proof {
                let n = i as int;
                lemma_sum_step(all, |it: Iteration<()>| it.n_rebuilds as nat, n);
                lemma_sum_step(all, |it: Iteration<()>| it.search_time.nanos as nat, n);
                lemma_sum_step(all, |it: Iteration<()>| it.apply_time.nanos as nat, n);
                lemma_sum_step(all, |it: Iteration<()>| it.rebuild_time.nanos as nat, n);
                lemma_sum_step(all, |it: Iteration<()>| it.total_time.nanos as nat, n);
            }
            rebuilds = rebuilds + it.n_rebuilds;
            search = search + it.search_time.nanos;
            apply = apply + it.apply_time.nanos;
            rebuild = rebuild + it.rebuild_time.nanos;
            total = total + it.total_time.nanos;
            i = i + 1;
        }
        assert(all.take(i as int) =~= all);
        Report {
            stop_reason: self.stop_reason.as_ref().unwrap().clone(),
            iterations: self.iterations.len(),
            egraph_nodes: self.egraph.total_number_of_nodes(),
            egraph_classes: self.egraph.number_of_classes(),
            memo_size: self.egraph.total_size(),
            rebuilds,
            search_time: Duration { nanos: search },
            apply_time: Duration { nanos: apply },
            rebuild_time: Duration { nanos: rebuild },
            total_time: Duration { nanos: total },
        }
    }
}

} // verus!
