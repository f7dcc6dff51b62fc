//! Applying the matches of an iteration.
use vstd::prelude::*;

use crate::egraph::{EGraph, Rewrite, SearchMatches};
use crate::index_map::{IndexMap, lookup, put};
use crate::limits::{LimitReading, LocalRunnerLimits, reads};
use crate::outcome::{RunnerResult, StopReason};
use crate::scheduler::{LocalRewriteScheduler, applied, applies};
use crate::symbol::Symbol;

verus! {

/// How often a rule was applied so far.
pub open spec fn tally_of(tally: Seq<(Seq<char>, usize)>, name: Seq<char>) -> usize {
    match lookup(tally, name) {
        Some(count) => count,
        None => 0,
    }
}

/// Counting `count` applications of a rule would pass what a machine word holds.
pub open spec fn tally_overflows(
    tally: Seq<(Seq<char>, usize)>,
    name: Seq<char>,
    count: usize,
) -> bool {
    tally_of(tally, name) + count > usize::MAX
}

/// The tally once `count` applications of a rule were counted. A rule that was not
/// applied does not appear, and a count that would overflow is left as it is.
pub open spec fn tallied(
    tally: Seq<(Seq<char>, usize)>,
    name: Seq<char>,
    count: usize,
) -> Seq<(Seq<char>, usize)> {
    if count == 0 || tally_overflows(tally, name, count) {
        tally
    } else {
        put(tally, name, (tally_of(tally, name) + count) as usize)
    }
}

/// Counts `count` applications of a rule, unless the count would overflow.
pub fn tally_rule(tally: &mut IndexMap<usize>, name: &Symbol, count: usize) -> (fits: bool)
    ensures
        fits == !tally_overflows(old(tally)@, name@, count),
        final(tally)@ == tallied(old(tally)@, name@, count),
{
    if count == 0 {
        return true;
    }
    let sofar: usize = match tally.get(name) {
        Some(sofar) => *sofar,
        None => 0,
    };
    if sofar > usize::MAX - count {
        return false;
    }
    tally.insert(name.clone(), sofar + count);
    true
}

/// What one rule's application left behind.
pub struct ApplyStep<G, S> {
    /// The scheduler.
    pub scheduler: S,
    /// The e-graph.
    pub egraph: G,
    /// How often the rule was applied.
    pub count: usize,
    /// What the limits were held against.
    pub reading: LimitReading,
}

/// The scheduler before step `k`.
pub open spec fn scheduler_at<G, S>(first: S, steps: Seq<ApplyStep<G, S>>, k: int) -> S {
    if k == 0 {
        first
    } else {
        steps[k - 1].scheduler
    }
}

/// The e-graph before step `k`.
pub open spec fn egraph_at<G, S>(first: G, steps: Seq<ApplyStep<G, S>>, k: int) -> G {
    if k == 0 {
        first
    } else {
        steps[k - 1].egraph
    }
}

/// The tally before step `k`.
pub open spec fn tally_at<G: EGraph, S>(
    rules: Seq<Rewrite<G>>,
    steps: Seq<ApplyStep<G, S>>,
    k: int,
) -> Seq<(Seq<char>, usize)>
    decreases k,
{
    if k <= 0 {
        Seq::empty()
    } else {
        tallied(tally_at(rules, steps, k - 1), rules[k - 1].name@, steps[k - 1].count)
    }
}

/// Whether the run goes on after step `k`.
pub open spec fn step_result<G: EGraph, S>(
    limits: LocalRunnerLimits,
    iteration: usize,
    rules: Seq<Rewrite<G>>,
    steps: Seq<ApplyStep<G, S>>,
    k: int,
) -> RunnerResult<()> {
    if tally_overflows(tally_at(rules, steps, k), rules[k].name@, steps[k].count) {
        Err(StopReason::Overflow)
    } else {
        limits.verdict(iteration, steps[k].reading)
    }
}

/// The rules were applied at their matches in order, as many as there are steps, and
/// the limits were held against each e-graph that a step left.
pub open spec fn apply_chain<G: EGraph, S: LocalRewriteScheduler<G>>(
    limits: LocalRunnerLimits,
    iteration: usize,
    rules: Seq<Rewrite<G>>,
    matches: Seq<Vec<SearchMatches<G::Subst>>>,
    scheduler: S,
    egraph: G,
    steps: Seq<ApplyStep<G, S>>,
) -> bool {
    &&& steps.len() <= rules.len()
    &&& steps.len() <= matches.len()
    &&& forall|k: int|
        0 <= k < steps.len() ==> applies(
            scheduler_at(scheduler, steps, k),
            iteration,
            egraph_at(egraph, steps, k),
            rules[k],
            matches[k],
            (#[trigger] steps[k]).scheduler,
            steps[k].egraph,
            steps[k].count,
        )
    &&& forall|k: int|
        0 <= k < steps.len() && !tally_overflows(
            tally_at(rules, steps, k),
            rules[k].name@,
            steps[k].count,
        ) ==> reads(limits, (#[trigger] steps[k]).egraph, steps[k].reading)
}

/// The result of the steps: every rule that has matches was applied and the run goes
/// on, or the last step gave a reason to stop and no step before it did.
pub open spec fn apply_result<G: EGraph, S>(
    limits: LocalRunnerLimits,
    iteration: usize,
    rules: Seq<Rewrite<G>>,
    searched: nat,
    steps: Seq<ApplyStep<G, S>>,
    res: RunnerResult<()>,
) -> bool {
    match res {
        Ok(_) => {
            &&& steps.len() == rules.len() || steps.len() == searched
            &&& forall|k: int|
                0 <= k < steps.len() ==> #[trigger] step_result(
                    limits,
                    iteration,
                    rules,
                    steps,
                    k,
                ) is Ok
        },
        Err(reason) => {
            &&& steps.len() > 0
            &&& step_result(limits, iteration, rules, steps, steps.len() - 1) == Err::<(), _>(
                reason,
            )
            &&& forall|k: int|
                0 <= k < steps.len() - 1 ==> #[trigger] step_result(
                    limits,
                    iteration,
                    rules,
                    steps,
                    k,
                ) is Ok
        },
    }
}

/// A scheduler, an e-graph and the tally, once the matches were applied.
pub struct Applied<G, S> {
    pub scheduler: S,
    pub egraph: G,
    pub tally: IndexMap<usize>,
    pub result: RunnerResult<()>,
}

/// Applying the rules at their matches, up to the first reason to stop, may end so.
pub open spec fn matches_applied<G: EGraph, S: LocalRewriteScheduler<G>>(
    limits: LocalRunnerLimits,
    iteration: usize,
    rules: Seq<Rewrite<G>>,
    matches: Seq<Vec<SearchMatches<G::Subst>>>,
    scheduler: S,
    egraph: G,
    after: Applied<G, S>,
) -> bool {
    exists|steps: Seq<ApplyStep<G, S>>|
        {
            &&& #[trigger] apply_chain(limits, iteration, rules, matches, scheduler, egraph, steps)
            &&& apply_result(limits, iteration, rules, matches.len(), steps, after.result)
            &&& after.scheduler == scheduler_at(scheduler, steps, steps.len() as int)
            &&& after.egraph == egraph_at(egraph, steps, steps.len() as int)
            &&& after.tally@ == tally_at(rules, steps, steps.len() as int)
        }
}

/// The steps in which matches were applied.
pub proof fn steps_of<G: EGraph, S: LocalRewriteScheduler<G>>(
    limits: LocalRunnerLimits,
    iteration: usize,
    rules: Seq<Rewrite<G>>,
    matches: Seq<Vec<SearchMatches<G::Subst>>>,
    scheduler: S,
    egraph: G,
    after: Applied<G, S>,
) -> (steps: Seq<ApplyStep<G, S>>)
    requires
        matches_applied(limits, iteration, rules, matches, scheduler, egraph, after),
    ensures
        apply_chain(limits, iteration, rules, matches, scheduler, egraph, steps),
        apply_result(limits, iteration, rules, matches.len(), steps, after.result),
        after.tally@ == tally_at(rules, steps, steps.len() as int),
{
    choose|steps: Seq<ApplyStep<G, S>>|
        {
            &&& #[trigger] apply_chain(limits, iteration, rules, matches, scheduler, egraph, steps)
            &&& apply_result(limits, iteration, rules, matches.len(), steps, after.result)
            &&& after.tally@ == tally_at(rules, steps, steps.len() as int)
        }
}

/// The tally and the results of the steps depend on the steps up to them alone.
proof fn lemma_steps_prefix<G: EGraph, S>(
    rules: Seq<Rewrite<G>>,
    steps: Seq<ApplyStep<G, S>>,
    step: ApplyStep<G, S>,
    k: int,
)
    requires
        0 <= k <= steps.len(),
    ensures
        tally_at(rules, steps.push(step), k) == tally_at(rules, steps, k),
    decreases k,
{
    if k > 0 {
        lemma_steps_prefix(rules, steps, step, k - 1);
    }
}

/// Applies the rules at their matches, in order, and holds the limits against the
/// e-graph after each. Stops at the first limit that was passed.
pub fn apply_matches<G: EGraph, S: LocalRewriteScheduler<G>>(
    limits: &LocalRunnerLimits,
    iteration: usize,
    rules: &Vec<Rewrite<G>>,
    matches: Vec<Vec<SearchMatches<G::Subst>>>,
    scheduler: S,
    egraph: G,
) -> (after: Applied<G, S>)
    requires
        limits.start_time is Some,
    ensures
        matches_applied(*limits, iteration, rules@, matches@, scheduler, egraph, after),
{
    let ghost all = matches@;
    let ghost first_scheduler = scheduler;
    let ghost first_egraph = egraph;
    let ghost mut steps: Seq<ApplyStep<G, S>> = Seq::empty();
    let mut waiting = matches;
    let mut scheduler = scheduler;
    let mut egraph = egraph;
    let mut tally: IndexMap<usize> = IndexMap::new();
    let mut result: RunnerResult<()> = Ok(());
    let mut i: usize = 0;
    assert(all.skip(0) =~= all);
    while i < rules.len() && waiting.len() > 0 && result.is_ok()
        invariant
            limits.start_time is Some,
            i == steps.len(),
            i <= rules@.len(),
            i <= all.len(),
            waiting@ == all.skip(i as int),
            apply_chain(*limits, iteration, rules@, all, first_scheduler, first_egraph, steps),
            scheduler == scheduler_at(first_scheduler, steps, i as int),
            egraph == egraph_at(first_egraph, steps, i as int),
            tally@ == tally_at(rules@, steps, i as int),
            result is Ok ==> forall|k: int|
                0 <= k < steps.len() ==> #[trigger] step_result(
                    *limits,
                    iteration,
                    rules@,
                    steps,
                    k,
                ) is Ok,
            result is Err ==> apply_result(*limits, iteration, rules@, all.len(), steps, result),
        decreases rules@.len() - i,
    {
        let ghost before = steps;
        let ghost before_scheduler = scheduler;
        let ghost before_egraph = egraph;
        let ghost before_tally = tally@;
        let rule = &rules[i];
        let ms = waiting.remove(0);
        assert(ms == all[i as int]);
        let (next_scheduler, next_egraph, count) = applied(scheduler, iteration, egraph, rule, ms);
        scheduler = next_scheduler;
        egraph = next_egraph;
        assert(applies(
            before_scheduler,
            iteration,
            before_egraph,
            rules@[i as int],
            all[i as int],
            scheduler,
            egraph,
            count,
        ));
        let fits: bool = tally_rule(&mut tally, &rule.name, count);
        result = if fits {
            limits.check_limits(iteration, &egraph)
        } else {
            Err(StopReason::Overflow)
        };
        proof {
            let reading = choose|reading: LimitReading| #[trigger]
                reads(*limits, egraph, reading) && result == limits.verdict(iteration, reading);
            let step = ApplyStep { scheduler, egraph, count, reading };
            steps = before.push(step);
            assert forall|k: int| 0 <= k <= i implies #[trigger] tally_at(rules@, steps, k)
                == tally_at(rules@, before, k) by {
                lemma_steps_prefix(rules@, before, step, k);
            }
            assert forall|k: int| 0 <= k < i implies #[trigger] step_result(
                *limits,
                iteration,
                rules@,
                steps,
                k,
            ) == step_result(*limits, iteration, rules@, before, k) by {
                assert(steps[k] == before[k]);
            }
            assert forall|k: int| 0 <= k < steps.len() implies applies(
                scheduler_at(first_scheduler, steps, k),
                iteration,
                egraph_at(first_egraph, steps, k),
                rules@[k],
                all[k],
                (#[trigger] steps[k]).scheduler,
                steps[k].egraph,
                steps[k].count,
            ) by {
                if k < i {
                    assert(steps[k] == before[k]);
                }
            }
            assert forall|k: int|
                0 <= k < steps.len() && !tally_overflows(
                    tally_at(rules@, steps, k),
                    rules@[k].name@,
                    steps[k].count,
                ) implies reads(*limits, (#[trigger] steps[k]).egraph, steps[k].reading) by {
                if k < i {
                    assert(steps[k] == before[k]);
                }
            }
            assert(step_result(*limits, iteration, rules@, steps, i as int) == result);
            assert(waiting@ =~= all.skip(i + 1));
        }
        i = i + 1;
    }
    Applied { scheduler, egraph, tally, result }
}

} // verus!
