//! What an iteration and a run come to, in terms of what the clock, the e-graph, the hooks
//! and the scheduler said.
use vstd::prelude::*;

use crate::apply::Applied;
use crate::apply_laws::{ApplyCourse, applications, law_rules_are_applied_in_turn};
use crate::egraph::{EGraph, Id, Rewrite, SearchMatches, rebuilds};
use crate::hook::{HookScope, LocalHook, calls, hook_chain, hook_result, hooks_run, run_hooks};
use crate::index_map::IndexMap;
use crate::limits::{LimitReading, LocalRunnerLimits, reads};
use crate::outcome::{Iteration, RunnerResult, StopReason};
use crate::runner::{
    Extent, IterationTrace, RunnerLocal, conclude, decides, iterates, iteration_of,
    law_iteration_keeps_records_and_limits, measure, rounds, run_chain, runs, states_of, trace_of,
};
use crate::runner_laws::finds_alike;
use crate::scheduler::{LocalRewriteScheduler, applies, asks, searches};
use crate::scope_laws::{law_scope_grows_by_what_is_new, listed_in_order, share_root};
use crate::time::{clock_reads, passes_since};
use crate::timed::{PartTimes, recorded, timed_apply, timed_hooks, timed_rebuild, timed_search};

verus! {

/// An iteration that met no reason to stop ends the run as saturated exactly when nothing
/// was applied, the scheduler lets the run stop, and the size and the number of e-classes
/// are the same at the start, after the hooks and at the end, whatever they are. A reason
/// that it met is the reason.
pub proof fn law_rest_is_saturation(
    result: RunnerResult<()>,
    nothing_applied: bool,
    can_stop: bool,
    start: Extent,
    hooked: Extent,
    end: Extent,
    reason: Option<StopReason>,
)
    requires
        call_ensures(
            conclude,
            (result, nothing_applied, can_stop, start, hooked, end),
            reason,
        ),
    ensures
        result matches Err(met) ==> reason == Some(met),
        result is Ok && nothing_applied && can_stop && start.nodes == hooked.nodes && start.classes
            == hooked.classes && start.nodes == end.nodes && start.classes == end.classes
            ==> reason == Some(StopReason::Saturated),
        result is Ok && reason is Some ==> nothing_applied && can_stop && start.nodes
            == hooked.nodes && start.classes == hooked.classes && start.nodes == end.nodes
            && start.classes == end.classes && reason == Some(StopReason::Saturated),
{
}

/// Whether an iteration ends a run does not depend on how large the e-graph is: with the
/// same amounts more in all three measures the conclusion is the same.
pub proof fn law_saturation_does_not_depend_on_size(
    result: RunnerResult<()>,
    nothing_applied: bool,
    can_stop: bool,
    a: (Extent, Extent, Extent),
    b: (Extent, Extent, Extent),
    in_a: Option<StopReason>,
    in_b: Option<StopReason>,
)
    requires
        call_ensures(conclude, (result, nothing_applied, can_stop, a.0, a.1, a.2), in_a),
        call_ensures(conclude, (result, nothing_applied, can_stop, b.0, b.1, b.2), in_b),
        b.0.nodes - a.0.nodes == b.1.nodes - a.1.nodes,
        b.0.nodes - a.0.nodes == b.2.nodes - a.2.nodes,
        b.0.classes - a.0.classes == b.1.classes - a.1.classes,
        b.0.classes - a.0.classes == b.2.classes - a.2.classes,
    ensures
        in_a == in_b,
{
}

/// An e-graph is measured by its size and the number of its e-classes.
pub proof fn law_extent_is_size_and_classes<G: EGraph>(egraph: &G, extent: Extent)
    requires
        call_ensures(measure::<G>, (egraph,), extent),
    ensures
        call_ensures(G::total_size, (egraph,), extent.nodes),
        call_ensures(G::number_of_classes, (egraph,), extent.classes),
{
}

/// The hooks are run in order, each on what the one before left, up to the first that gives
/// a reason to stop, which is the reason. Where none does all are run. Those behind it stay
/// as they were.
pub proof fn law_hooks_run_in_turn<G, H: LocalHook<G>>(
    hooks: Vec<H>,
    scope: HookScope<G>,
    iterations: &Vec<Iteration<()>>,
    after: Vec<H>,
    changed: HookScope<G>,
    res: RunnerResult<()>,
) -> (w: (Seq<HookScope<G>>, Seq<Result<(), String>>))
    requires
        call_ensures(run_hooks::<G, H>, (hooks, scope, iterations), (after, changed, res)),
    ensures
        after@.len() == hooks@.len(),
        w.1.len() <= hooks@.len(),
        w.0.len() == w.1.len() + 1,
        w.0[0] == scope,
        w.0[w.1.len() as int] == changed,
        forall|k: int|
            0 <= k < w.1.len() ==> calls(
                hooks@[k],
                w.0[k],
                *iterations,
                #[trigger] after@[k],
                w.0[k + 1],
                w.1[k],
            ),
        forall|k: int| w.1.len() <= k < hooks@.len() ==> #[trigger] after@[k] == hooks@[k],
        forall|k: int| 0 <= k < w.1.len() - 1 ==> #[trigger] w.1[k] is Ok,
        res is Ok <==> w.1.len() == hooks@.len() && (w.1.len() > 0 ==> w.1[w.1.len() - 1] is Ok),
        res is Err ==> w.1.len() > 0 && w.1[w.1.len() - 1] is Err && res == Err::<(), _>(
            StopReason::Other(w.1[w.1.len() - 1]->Err_0),
        ),
{
    let out = (after, changed, res);
    assert(out.0 == after && out.1 == changed && out.2 == res);
    hooks_of(hooks@, scope, *iterations, after@, changed, res)
}

/// The scopes that hooks were run on, and what they returned.
proof fn hooks_of<G, H: LocalHook<G>>(
    before: Seq<H>,
    scope: HookScope<G>,
    iterations: Vec<Iteration<()>>,
    after: Seq<H>,
    changed: HookScope<G>,
    res: RunnerResult<()>,
) -> (w: (Seq<HookScope<G>>, Seq<Result<(), String>>))
    requires
        hooks_run(before, scope, iterations, after, changed, res),
    ensures
        after.len() == before.len(),
        w.1.len() <= before.len(),
        w.0.len() == w.1.len() + 1,
        w.0[0] == scope,
        w.0[w.1.len() as int] == changed,
        forall|k: int|
            0 <= k < w.1.len() ==> calls(
                before[k],
                w.0[k],
                iterations,
                #[trigger] after[k],
                w.0[k + 1],
                w.1[k],
            ),
        forall|k: int| w.1.len() <= k < before.len() ==> #[trigger] after[k] == before[k],
        forall|k: int| 0 <= k < w.1.len() - 1 ==> #[trigger] w.1[k] is Ok,
        res is Ok <==> w.1.len() == before.len() && (w.1.len() > 0 ==> w.1[w.1.len() - 1] is Ok),
        res is Err ==> w.1.len() > 0 && w.1[w.1.len() - 1] is Err && res == Err::<(), _>(
            StopReason::Other(w.1[w.1.len() - 1]->Err_0),
        ),
{
    let (scopes, outs) = choose|scopes: Seq<HookScope<G>>, outs: Seq<Result<(), String>>|
        {
            &&& #[trigger] hook_chain(before, iterations, after, scopes, outs)
            &&& scopes[0] == scope
            &&& scopes.last() == changed
            &&& hook_result(outs, before.len(), res)
        };
    assert forall|k: int| 0 <= k < outs.len() implies calls(
        before[k],
        scopes[k],
        iterations,
        #[trigger] after[k],
        scopes[k + 1],
        outs[k],
    ) by {
        assert(before[k] == before[k]);
    }
    assert forall|k: int| outs.len() <= k < before.len() implies #[trigger] after[k]
        == before[k] by {
        assert(before[k] == before[k]);
    }
    (scopes, outs)
}

/// What an iteration met, from its start to its end.
pub struct Course<G: EGraph, S> {
    /// The time since the run started and the size of the e-graph, at the start.
    pub reading: LimitReading,
    /// The e-graph, the roots and the scope before each hook that was run, and after them.
    pub scopes: Seq<HookScope<G>>,
    /// What the hooks that were run returned.
    pub outs: Seq<Result<(), String>>,
    /// The size and the number of e-classes after the hooks.
    pub hooked: Extent,
    /// The scheduler after the search.
    pub scheduler: S,
    /// What the search found.
    pub found: RunnerResult<Vec<Vec<SearchMatches<G::Subst>>>>,
    /// The e-classes that were listed before the rules were applied.
    pub ids_before: Vec<Id>,
    /// How the rules were applied.
    pub course: ApplyCourse<G, S>,
    /// What applying the rules came to.
    pub applied: Applied<G, S>,
    /// The e-classes that were listed after the rules were applied.
    pub ids_after: Vec<Id>,
    /// Whether the scheduler lets the run stop.
    pub stop: bool,
    /// The size and the number of e-classes at the end.
    pub end: Extent,
}

impl<G: EGraph, S> Course<G, S> {
    /// No limit was passed at the start.
    pub open spec fn is_within(self, limits: LocalRunnerLimits, iteration: nat) -> bool {
        &&& self.reading.elapsed.nanos <= limits.time_limit.nanos
        &&& self.reading.size <= limits.node_limit
        &&& iteration < limits.iter_limit
    }

    /// The first hook that gave a reason to stop was the last that was run.
    pub open spec fn is_hooked(self) -> bool {
        self.outs.len() == 0 || self.outs[self.outs.len() - 1] is Ok
    }
}

/// An iteration checks the limits first. Within them it runs the hooks; where none gives a
/// reason to stop, it searches all rules from the scope that the hooks left; where the
/// search gives none, it applies the rules at what was found. In any case it rebuilds what
/// is left, lets the new e-classes join the scope, and asks the scheduler whether to stop
/// where no rule was applied. The first reason to stop is that of the iteration; without
/// one it is saturated where nothing was applied or changed and the scheduler agrees.
pub proof fn law_course_of_an_iteration<
    G: EGraph,
    S: LocalRewriteScheduler<G>,
    H: LocalHook<G>,
>(
    runner: RunnerLocal<G, S, H>,
    rules: Vec<Rewrite<G>>,
    after: RunnerLocal<G, S, H>,
    it: Iteration<()>,
) -> (c: Course<G, S>)
    requires
        iterates(runner, rules, after, it),
    ensures
        // what is kept
        after.iterations == runner.iterations,
        after.stop_reason == runner.stop_reason,
        after.limits.iter_limit == runner.limits.iter_limit,
        after.limits.node_limit == runner.limits.node_limit,
        after.limits.time_limit == runner.limits.time_limit,
        after.limits.start_time is Some,
        runner.limits.start_time is Some ==> after.limits.start_time == runner.limits.start_time,
        runner.limits.start_time is None ==> clock_reads(after.limits.start_time->0),
        // what is read
        passes_since(after.limits.start_time->0, c.reading.elapsed),
        call_ensures(G::total_size, (&runner.egraph,), c.reading.size),
        call_ensures(G::total_size, (&runner.egraph,), it.egraph_nodes),
        call_ensures(G::number_of_classes, (&runner.egraph,), it.egraph_classes),
        call_ensures(G::total_size, (&after.egraph,), c.end.nodes),
        call_ensures(G::number_of_classes, (&after.egraph,), c.end.classes),
        // the hooks
        c.scopes.len() == c.outs.len() + 1,
        c.outs.len() <= runner.hooks@.len(),
        after.hooks@.len() == runner.hooks@.len(),
        c.scopes[0].egraph == runner.egraph,
        c.scopes[0].roots == runner.roots,
        c.scopes[0].local_scope == runner.local_scope,
        forall|k: int|
            0 <= k < c.outs.len() ==> calls(
                runner.hooks@[k],
                c.scopes[k],
                runner.iterations,
                #[trigger] after.hooks@[k],
                c.scopes[k + 1],
                c.outs[k],
            ),
        forall|k: int|
            c.outs.len() <= k < runner.hooks@.len() ==> #[trigger] after.hooks@[k]
                == runner.hooks@[k],
        forall|k: int| 0 <= k < c.outs.len() - 1 ==> #[trigger] c.outs[k] is Ok,
        !c.is_within(runner.limits, runner.iterations@.len()) ==> c.outs.len() == 0,
        c.is_within(runner.limits, runner.iterations@.len()) && c.is_hooked() ==> c.outs.len()
            == runner.hooks@.len(),
        after.roots == c.scopes[c.outs.len() as int].roots,
        call_ensures(
            G::total_size,
            (&c.scopes[c.outs.len() as int].egraph,),
            c.hooked.nodes,
        ),
        call_ensures(
            G::number_of_classes,
            (&c.scopes[c.outs.len() as int].egraph,),
            c.hooked.classes,
        ),
        // the search
        c.is_within(runner.limits, runner.iterations@.len()) && c.is_hooked() ==> searches(
            runner.scheduler,
            runner.iterations@.len() as usize,
            c.scopes[c.outs.len() as int].egraph,
            rules,
            c.scopes[c.outs.len() as int].local_scope,
            c.scheduler,
            c.found,
        ),
        !(c.is_within(runner.limits, runner.iterations@.len()) && c.is_hooked()) ==> c.scheduler
            == runner.scheduler && c.found is Err,
        // the rules
        c.found matches Ok(matches) ==> c.course.leads_to(
            after.limits,
            runner.iterations@.len() as usize,
            rules@,
            matches@,
            c.scheduler,
            c.scopes[c.outs.len() as int].egraph,
            c.applied,
        ),
        c.found is Err ==> c.applied.scheduler == c.scheduler && c.applied.egraph
            == c.scopes[c.outs.len() as int].egraph && c.applied.tally@.len() == 0,
        it.applied@ == c.applied.tally@,
        // the end
        rebuilds(c.applied.egraph, after.egraph, it.n_rebuilds),
        it.applied@.len() == 0 ==> asks(
            c.applied.scheduler,
            runner.iterations@.len() as usize,
            after.scheduler,
            c.stop,
        ),
        it.applied@.len() > 0 ==> after.scheduler == c.applied.scheduler,
        // the scope
        call_ensures(
            G::class_ids,
            (&c.scopes[c.outs.len() as int].egraph,),
            c.ids_before,
        ),
        call_ensures(G::class_ids, (&c.applied.egraph,), c.ids_after),
        c.scopes[c.outs.len() as int].local_scope@.len() <= after.local_scope@.len(),
        forall|i: int| 0 <= i < c.scopes[c.outs.len() as int].local_scope@.len() ==> #[trigger] after.local_scope@[i] == c.scopes[c.outs.len() as int].local_scope@[i],
        forall|i: int|
            c.scopes[c.outs.len() as int].local_scope@.len() <= i < after.local_scope@.len() ==> c.ids_after@.contains(
                #[trigger] after.local_scope@[i],
            ) && !c.ids_before@.contains(after.local_scope@[i]) && !c.scopes[c.outs.len() as int].local_scope@.contains(
                after.local_scope@[i],
            ),
        forall|i: int, j: int|
            c.scopes[c.outs.len() as int].local_scope@.len() <= i < j < after.local_scope@.len()
                ==> #[trigger] after.local_scope@[i] != #[trigger] after.local_scope@[j]
                && listed_in_order(c.ids_after@, after.local_scope@[i], after.local_scope@[j]),
        forall|id: Id|
            c.ids_after@.contains(id) && !c.ids_before@.contains(id) && (forall|old: Id|
                c.ids_before@.contains(old) && !c.scopes[c.outs.len() as int].local_scope@.contains(old) ==> !#[trigger] share_root(
                    after.egraph,
                    id,
                    old,
                )) ==> #[trigger] after.local_scope@.contains(id),
        finds_alike(after.egraph) ==> forall|id: Id, near: Id|
            c.ids_after@.contains(id) && !c.ids_before@.contains(id) && c.scopes[c.outs.len() as int].local_scope@.contains(near)
                && #[trigger] share_root(after.egraph, id, near) ==> after.local_scope@.contains(
                id,
            ),
        finds_alike(after.egraph) ==> forall|id: Id, old: Id|
            !c.scopes[c.outs.len() as int].local_scope@.contains(id) && c.ids_before@.contains(old) && !c.scopes[c.outs.len() as int].local_scope@.contains(old)
                && #[trigger] share_root(after.egraph, id, old) && (forall|near: Id|
                c.scopes[c.outs.len() as int].local_scope@.contains(near) ==> !#[trigger] share_root(after.egraph, id, near))
                ==> !after.local_scope@.contains(id),
        // the reason
        c.reading.elapsed.nanos > runner.limits.time_limit.nanos ==> it.stop_reason == Some(
            StopReason::TimeLimit(c.reading.elapsed),
        ),
        c.reading.elapsed.nanos <= runner.limits.time_limit.nanos && c.reading.size
            > runner.limits.node_limit ==> it.stop_reason == Some(
            StopReason::NodeLimit(c.reading.size),
        ),
        c.reading.elapsed.nanos <= runner.limits.time_limit.nanos && c.reading.size
            <= runner.limits.node_limit && runner.iterations@.len() >= runner.limits.iter_limit
            ==> it.stop_reason == Some(
            StopReason::IterationLimit(runner.iterations@.len() as usize),
        ),
        !c.is_hooked() ==> it.stop_reason == Some(
            StopReason::Other(c.outs[c.outs.len() - 1]->Err_0),
        ),
        c.is_within(runner.limits, runner.iterations@.len()) && c.is_hooked() && c.found is Err
            ==> it.stop_reason == Some(c.found->Err_0),
        c.found is Ok && c.applied.result is Err ==> it.stop_reason == Some(
            c.applied.result->Err_0,
        ),
        c.found is Ok && c.applied.result is Ok && it.applied@.len() == 0 && c.stop
            && it.egraph_nodes == c.hooked.nodes && it.egraph_classes == c.hooked.classes
            && it.egraph_nodes == c.end.nodes && it.egraph_classes == c.end.classes
            ==> it.stop_reason == Some(StopReason::Saturated),
        c.found is Ok && c.applied.result is Ok && !(it.applied@.len() == 0 && c.stop
            && it.egraph_nodes == c.hooked.nodes && it.egraph_classes == c.hooked.classes
            && it.egraph_nodes == c.end.nodes && it.egraph_classes == c.end.classes)
            ==> it.stop_reason is None,
{
    let t = trace_of(runner, rules, after, it);
    assert(runner.iterations.len() == runner.iterations@.len());
    let i = runner.iterations@.len() as usize;
    let (scopes, outs) = if t.limits.verdict(i, t.reading) is Ok {
        hooks_of(
            runner.hooks@,
            runner.hook_scope(),
            runner.iterations,
            t.hooks@,
            t.hooked,
            t.begun,
        )
    } else {
        (seq![t.hooked], Seq::<Result<(), String>>::empty())
    };
    let course = if t.found is Ok {
        law_rules_are_applied_in_turn(
            t.limits,
            i,
            rules@,
            t.found->Ok_0@,
            t.scheduler,
            t.hooked.egraph,
            t.applied,
        )
    } else {
        arbitrary()
    };
    law_scope_grows_by_what_is_new(
        after.egraph,
        t.hooked.local_scope@,
        t.ids_before@,
        t.ids_after@,
        t.roots,
        after.local_scope@,
    );
    Course {
        reading: t.reading,
        scopes,
        outs,
        hooked: t.hooked_extent,
        scheduler: t.scheduler,
        found: t.found,
        ids_before: t.ids_before,
        course,
        applied: t.applied,
        ids_after: t.ids_after,
        stop: t.can_stop,
        end: t.end,
    }
}

/// Without hooks, an e-class that is there once the rules were applied and was not there at
/// the start is in the scope after the iteration, where it shares its root in the rebuilt
/// e-graph with no e-class that was there at the start outside the scope, however many of
/// those there are.
pub proof fn law_unmerged_class_is_searched_next<
    G: EGraph,
    S: LocalRewriteScheduler<G>,
    H: LocalHook<G>,
>(
    runner: RunnerLocal<G, S, H>,
    rules: Vec<Rewrite<G>>,
    after: RunnerLocal<G, S, H>,
    it: Iteration<()>,
    id: Id,
)
    requires
        iterates(runner, rules, after, it),
        runner.hooks@.len() == 0,
        forall|rewritten: G, ids: Vec<Id>|
            #[trigger] rebuilds(rewritten, after.egraph, it.n_rebuilds) && #[trigger] call_ensures(
                G::class_ids,
                (&rewritten,),
                ids,
            ) ==> ids@.contains(id),
        forall|ids: Vec<Id>| #[trigger]
            call_ensures(G::class_ids, (&runner.egraph,), ids) ==> !ids@.contains(id) && forall|
                old: Id,
            |
                ids@.contains(old) && !runner.local_scope@.contains(old)
                    ==> !#[trigger] share_root(after.egraph, id, old),
    ensures
        after.local_scope@.contains(id),
{
    let c = law_course_of_an_iteration(runner, rules, after, it);
    assert(rebuilds(c.applied.egraph, after.egraph, it.n_rebuilds));
    assert(call_ensures(G::class_ids, (&c.applied.egraph,), c.ids_after));
}

/// Without hooks, an iteration in which no rule was applied, whose scheduler lets the run
/// stop, and that leaves the e-graph with the size and the number of e-classes that it had,
/// whatever they are, gives a reason to stop. Where it met no other, that is saturation.
pub proof fn law_idle_iteration_ends_the_run<
    G: EGraph,
    S: LocalRewriteScheduler<G>,
    H: LocalHook<G>,
>(
    runner: RunnerLocal<G, S, H>,
    rules: Vec<Rewrite<G>>,
    after: RunnerLocal<G, S, H>,
    it: Iteration<()>,
    size: usize,
    classes: usize,
)
    requires
        iterates(runner, rules, after, it),
        runner.hooks@.len() == 0,
        it.applied@.len() == 0,
        forall|before: S| !#[trigger] asks(
            before,
            runner.iterations@.len() as usize,
            after.scheduler,
            false,
        ),
        forall|n: usize|
            #[trigger] call_ensures(G::total_size, (&runner.egraph,), n) ==> n == size,
        forall|n: usize|
            #[trigger] call_ensures(G::total_size, (&after.egraph,), n) ==> n == size,
        forall|n: usize|
            #[trigger] call_ensures(G::number_of_classes, (&runner.egraph,), n) ==> n == classes,
        forall|n: usize|
            #[trigger] call_ensures(G::number_of_classes, (&after.egraph,), n) ==> n == classes,
    ensures
        it.stop_reason is Some,
        size <= runner.limits.node_limit && runner.iterations@.len() < runner.limits.iter_limit
            && !(it.stop_reason matches Some(StopReason::TimeLimit(span))) && (forall|
            scheduler: S,
            found: RunnerResult<Vec<Vec<SearchMatches<G::Subst>>>>,
        | #[trigger]
            searches(
                runner.scheduler,
                runner.iterations@.len() as usize,
                runner.egraph,
                rules,
                runner.local_scope,
                scheduler,
                found,
            ) ==> found is Ok && found->Ok_0@.len() == 0) ==> it.stop_reason == Some(
            StopReason::Saturated,
        ),
{
    let c = law_course_of_an_iteration(runner, rules, after, it);
    assert(asks(
        c.applied.scheduler,
        runner.iterations@.len() as usize,
        after.scheduler,
        c.stop,
    ));
    reveal(ApplyCourse::applies_in_turn);
    reveal(ApplyCourse::keeps_within);
    reveal(ApplyCourse::ends_so);
    reveal(ApplyCourse::is_recorded);
}

/// A reason that an iteration gives is true, where the scheduler's search gives none but an
/// overflow: a limit that is named was passed by what was read, a hook gave the text, and a
/// saturated iteration applied nothing, with the scheduler's consent, and left the e-graph
/// with the size and the number of e-classes that it had.
pub proof fn law_reason_to_stop_is_true<
    G: EGraph,
    S: LocalRewriteScheduler<G>,
    H: LocalHook<G>,
>(
    runner: RunnerLocal<G, S, H>,
    rules: Vec<Rewrite<G>>,
    after: RunnerLocal<G, S, H>,
    it: Iteration<()>,
    reason: StopReason,
)
    requires
        iterates(runner, rules, after, it),
        it.stop_reason == Some(reason),
        forall|egraph: G, scope: Vec<Id>, scheduler: S, met: StopReason| #[trigger]
            searches(
                runner.scheduler,
                runner.iterations@.len() as usize,
                egraph,
                rules,
                scope,
                scheduler,
                Err(met),
            ) ==> met == StopReason::Overflow,
    ensures
        match reason {
            StopReason::TimeLimit(span) => span.nanos > runner.limits.time_limit.nanos
                && passes_since(after.limits.start_time->0, span),
            StopReason::NodeLimit(size) => size > runner.limits.node_limit,
            StopReason::IterationLimit(n) => n == runner.iterations@.len() && n
                >= runner.limits.iter_limit,
            StopReason::Overflow => runner.iterations@.len() < runner.limits.iter_limit,
            StopReason::Other(text) => exists|
                hook: H,
                scope: HookScope<G>,
                called: H,
                changed: HookScope<G>,
            | #[trigger]
                calls(hook, scope, runner.iterations, called, changed, Err(text)),
            StopReason::Saturated => {
                &&& it.applied@.len() == 0
                &&& call_ensures(G::total_size, (&after.egraph,), it.egraph_nodes)
                &&& call_ensures(G::number_of_classes, (&after.egraph,), it.egraph_classes)
                &&& exists|scheduler: S| #[trigger]
                    asks(
                        scheduler,
                        runner.iterations@.len() as usize,
                        after.scheduler,
                        true,
                    )
            },
        },
{
    let c = law_course_of_an_iteration(runner, rules, after, it);
    let i = runner.iterations@.len() as usize;
    assert(runner.iterations.len() == runner.iterations@.len());
    reveal(ApplyCourse::applies_in_turn);
    reveal(ApplyCourse::keeps_within);
    reveal(ApplyCourse::ends_so);
    reveal(ApplyCourse::is_recorded);
    if !c.is_hooked() {
        let k = c.outs.len() - 1;
        assert(calls(
            runner.hooks@[k],
            c.scopes[k],
            runner.iterations,
            after.hooks@[k],
            c.scopes[k + 1],
            c.outs[k],
        ));
    } else if c.is_within(runner.limits, runner.iterations@.len()) && c.found is Err {
        assert(c.found == Err::<Vec<Vec<SearchMatches<G::Subst>>>, _>(c.found->Err_0));
    } else if c.found is Ok && c.applied.result is Err {
        let last = c.course.counts.len() - 1;
        assert(c.course.readings[last] == c.course.readings.last());
    }
    if it.applied@.len() == 0 {
        assert(asks(c.applied.scheduler, i, after.scheduler, c.stop));
    }
    if reason is Saturated {
        assert(c.stop == true);
        assert(asks(c.applied.scheduler, i, after.scheduler, true));
    }
    if let StopReason::Other(text) = reason {
        let k = c.outs.len() - 1;
        assert(c.outs[k] == Err::<(), String>(text));
        assert(calls(
            runner.hooks@[k],
            c.scopes[k],
            runner.iterations,
            after.hooks@[k],
            c.scopes[k + 1],
            Err(text),
        ));
    }
}

/// An iteration that gives no reason to stop was within the limits at its start, ran every
/// hook, searched every rule from the scope that the hooks left and applied every rule that
/// was searched, and the e-graph was within its limit on size after each.
pub proof fn law_iteration_that_goes_on_did_everything<
    G: EGraph,
    S: LocalRewriteScheduler<G>,
    H: LocalHook<G>,
>(
    runner: RunnerLocal<G, S, H>,
    rules: Vec<Rewrite<G>>,
    after: RunnerLocal<G, S, H>,
    it: Iteration<()>,
) -> (c: Course<G, S>)
    requires
        iterates(runner, rules, after, it),
        it.stop_reason is None,
    ensures
        runner.iterations@.len() < runner.limits.iter_limit,
        call_ensures(G::total_size, (&runner.egraph,), c.reading.size),
        c.reading.size <= runner.limits.node_limit,
        passes_since(after.limits.start_time->0, c.reading.elapsed),
        c.reading.elapsed.nanos <= runner.limits.time_limit.nanos,
        c.outs.len() == runner.hooks@.len(),
        forall|k: int|
            0 <= k < runner.hooks@.len() ==> #[trigger] c.outs[k] is Ok && calls(
                runner.hooks@[k],
                c.scopes[k],
                runner.iterations,
                after.hooks@[k],
                c.scopes[k + 1],
                c.outs[k],
            ),
        c.scopes[0].egraph == runner.egraph,
        c.scopes[0].local_scope == runner.local_scope,
        searches(
            runner.scheduler,
            runner.iterations@.len() as usize,
            c.scopes[runner.hooks@.len() as int].egraph,
            rules,
            c.scopes[runner.hooks@.len() as int].local_scope,
            c.scheduler,
            c.found,
        ),
        c.found is Ok,
        c.course.counts.len() == rules@.len() || c.course.counts.len() == c.found->Ok_0@.len(),
        c.course.schedulers[0] == c.scheduler,
        c.course.egraphs[0] == c.scopes[runner.hooks@.len() as int].egraph,
        rebuilds(
            c.course.egraphs[c.course.counts.len() as int],
            after.egraph,
            it.n_rebuilds,
        ),
        forall|k: int|
            0 <= k < c.course.counts.len() ==> {
                &&& applies(
                    c.course.schedulers[k],
                    runner.iterations@.len() as usize,
                    c.course.egraphs[k],
                    rules@[k],
                    c.found->Ok_0@[k],
                    c.course.schedulers[k + 1],
                    c.course.egraphs[k + 1],
                    #[trigger] c.course.counts[k],
                )
                &&& call_ensures(
                    G::total_size,
                    (&c.course.egraphs[k + 1],),
                    c.course.readings[k].size,
                )
                &&& c.course.readings[k].size <= runner.limits.node_limit
            },
        forall|i: int|
            0 <= i < it.applied@.len() ==> (#[trigger] it.applied@[i]).1 == applications(
                rules@,
                c.course.counts,
                it.applied@[i].0,
            ),
        forall|name: Seq<char>|
            (#[trigger] applications(rules@, c.course.counts, name)) > 0 ==> exists|i: int|
                0 <= i < it.applied@.len() && (#[trigger] it.applied@[i]).0 == name,
{
    let c = law_course_of_an_iteration(runner, rules, after, it);
    reveal(ApplyCourse::applies_in_turn);
    reveal(ApplyCourse::keeps_within);
    reveal(ApplyCourse::ends_so);
    reveal(ApplyCourse::is_recorded);
    assert(c.applied.result is Ok);
    assert forall|k: int| 0 <= k < c.course.counts.len() implies {
        &&& applies(
            c.course.schedulers[k],
            runner.iterations@.len() as usize,
            c.course.egraphs[k],
            rules@[k],
            c.found->Ok_0@[k],
            c.course.schedulers[k + 1],
            c.course.egraphs[k + 1],
            #[trigger] c.course.counts[k],
        )
        &&& call_ensures(
            G::total_size,
            (&c.course.egraphs[k + 1],),
            c.course.readings[k].size,
        )
        &&& c.course.readings[k].size <= runner.limits.node_limit
    } by {
        let reading = c.course.readings[k];
    }
    assert forall|k: int| 0 <= k < runner.hooks@.len() implies #[trigger] c.outs[k] is Ok && calls(
        runner.hooks@[k],
        c.scopes[k],
        runner.iterations,
        after.hooks@[k],
        c.scopes[k + 1],
        c.outs[k],
    ) by {
        let hook = after.hooks@[k];
    }
    c
}

/// The times of a record are those that the parts of the iteration took: the hooks, the
/// search, applying the rules and rebuilding, each on what it was given and with what it
/// left.
pub proof fn law_times_are_of_their_parts<
    G: EGraph,
    S: LocalRewriteScheduler<G>,
    H: LocalHook<G>,
>(
    runner: RunnerLocal<G, S, H>,
    rules: Vec<Rewrite<G>>,
    after: RunnerLocal<G, S, H>,
    it: Iteration<()>,
) -> (w: (IterationTrace<G, S, H>, RunnerResult<()>))
    requires
        iterates(runner, rules, after, it),
    ensures
        call_ensures(
            timed_hooks::<G, H>,
            (
                w.1,
                runner.hooks,
                (HookScope {
                    egraph: runner.egraph,
                    roots: runner.roots,
                    local_scope: runner.local_scope,
                }),
                &runner.iterations,
            ),
            (w.0.hooks, w.0.hooked, w.0.begun, it.hook_time),
        ),
        call_ensures(
            timed_search::<G, S>,
            (
                w.0.begun,
                runner.scheduler,
                runner.iterations@.len() as usize,
                &w.0.hooked.egraph,
                &rules,
                &w.0.hooked.local_scope,
            ),
            (w.0.scheduler, w.0.found, w.0.search_start, it.search_time),
        ),
        call_ensures(
            timed_apply::<G, S>,
            (
                &after.limits,
                runner.iterations@.len() as usize,
                &rules,
                w.0.found,
                w.0.scheduler,
                w.0.hooked.egraph,
                &w.0.ids_before,
            ),
            (w.0.applied, w.0.ids_after, w.0.new_ids, it.apply_time),
        ),
        call_ensures(
            timed_rebuild::<G>,
            (
                w.0.applied.egraph,
                w.0.hooked.local_scope,
                &w.0.ids_before,
                &w.0.new_ids,
            ),
            (after.egraph, it.n_rebuilds, after.local_scope, it.rebuild_time),
        ),
        clock_reads(w.0.search_start),
        passes_since(w.0.search_start, it.search_time),
        passes_since(w.0.search_start, it.total_time),
        exists|start: std::time::Instant|
            clock_reads(start) && #[trigger] passes_since(start, it.hook_time),
        exists|start: std::time::Instant|
            clock_reads(start) && #[trigger] passes_since(start, it.apply_time),
        exists|start: std::time::Instant|
            clock_reads(start) && #[trigger] passes_since(start, it.rebuild_time),
{
    let t = trace_of(runner, rules, after, it);
    let i = runner.iterations@.len() as usize;
    let hooks = (t.hooks, t.hooked, t.begun, it.hook_time);
    assert(hooks.3 == it.hook_time);
    let search = (t.scheduler, t.found, t.search_start, it.search_time);
    assert(search.2 == t.search_start && search.3 == it.search_time);
    let apply = (t.applied, t.ids_after, t.new_ids, it.apply_time);
    assert(apply.3 == it.apply_time);
    let rebuild = (after.egraph, it.n_rebuilds, after.local_scope, it.rebuild_time);
    assert(rebuild.3 == it.rebuild_time);
    (t, t.limits.verdict(i, t.reading))
}

/// The record of an iteration holds what it is made of, each in its place, and the time
/// since the search was started.
pub proof fn law_record_holds_its_parts(
    applied: IndexMap<usize>,
    start: Extent,
    times: PartTimes,
    n_rebuilds: usize,
    stop_reason: Option<StopReason>,
    search_start: &std::time::Instant,
    it: Iteration<()>,
)
    requires
        call_ensures(
            recorded,
            (applied, start, times, n_rebuilds, stop_reason, search_start),
            it,
        ),
    ensures
        it.applied == applied,
        it.egraph_nodes == start.nodes,
        it.egraph_classes == start.classes,
        it.hook_time == times.hook,
        it.search_time == times.search,
        it.apply_time == times.apply,
        it.rebuild_time == times.rebuild,
        it.n_rebuilds == n_rebuilds,
        it.stop_reason == stop_reason,
        passes_since(*search_start, it.total_time),
{
}

/// What a run met, from its start to its end.
pub struct RunCourse<G, S, H> {
    /// The runner at the start of each iteration, and at the end.
    pub states: Seq<RunnerLocal<G, S, H>>,
    /// The runner after each iteration, before its record joined the others.
    pub mids: Seq<RunnerLocal<G, S, H>>,
    /// The record of each iteration.
    pub records: Seq<Iteration<()>>,
    /// What the limits were held against after each iteration that gave no reason to stop.
    pub readings: Seq<LimitReading>,
}

/// A run rebuilds the e-graph and then iterates, each time on what the iteration before left,
/// and keeps the records in order. It goes on exactly after an iteration that gave no reason
/// to stop, within all limits; else that reason is the run's, or the limit that was passed.
pub proof fn law_course_of_a_run<G: EGraph, S: LocalRewriteScheduler<G>, H: LocalHook<G>>(
    runner: RunnerLocal<G, S, H>,
    rules: Vec<Rewrite<G>>,
    after: RunnerLocal<G, S, H>,
) -> (c: RunCourse<G, S, H>)
    requires
        runs(runner, rules, after),
    ensures
        c.records.len() > 0,
        c.states.len() == c.records.len() + 1,
        c.mids.len() == c.records.len(),
        c.readings.len() == c.records.len(),
        exists|n: usize| #[trigger] rebuilds(runner.egraph, c.states[0].egraph, n),
        c.states[0].iterations == runner.iterations,
        c.states[0].roots == runner.roots,
        c.states[0].stop_reason == runner.stop_reason,
        c.states[0].hooks == runner.hooks,
        c.states[0].limits == runner.limits,
        c.states[0].scheduler == runner.scheduler,
        c.states[0].local_scope == runner.local_scope,
        forall|k: int|
            0 <= k < c.records.len() ==> iterates(
                c.states[k],
                rules,
                c.mids[k],
                #[trigger] c.records[k],
            ),
        forall|k: int|
            0 <= k < c.records.len() ==> {
                let next = #[trigger] c.states[k + 1];
                let mid = c.mids[k];
                &&& next.iterations@ == c.states[k].iterations@.push(c.records[k])
                &&& next.egraph == mid.egraph
                &&& next.roots == mid.roots
                &&& next.hooks == mid.hooks
                &&& next.limits == mid.limits
                &&& next.scheduler == mid.scheduler
                &&& next.local_scope == mid.local_scope
            },
        forall|k: int|
            0 <= k < c.records.len() - 1 ==> (#[trigger] c.records[k]).stop_reason is None,
        forall|k: int|
            0 <= k < c.records.len() && c.records[k].stop_reason is None ==> {
                let reading = #[trigger] c.readings[k];
                &&& call_ensures(G::total_size, (&c.states[k + 1].egraph,), reading.size)
                &&& c.states[k + 1].limits.start_time is Some
                &&& passes_since(c.states[k + 1].limits.start_time->0, reading.elapsed)
                &&& k < c.records.len() - 1 ==> {
                    &&& reading.elapsed.nanos <= runner.limits.time_limit.nanos
                    &&& reading.size <= runner.limits.node_limit
                    &&& c.states[k + 1].iterations@.len() < runner.limits.iter_limit
                }
            },
        after.egraph == c.states[c.records.len() as int].egraph,
        after.iterations == c.states[c.records.len() as int].iterations,
        after.iterations@ == runner.iterations@ + c.records,
        after.roots == c.states[c.records.len() as int].roots,
        after.hooks == c.states[c.records.len() as int].hooks,
        after.limits == c.states[c.records.len() as int].limits,
        after.scheduler == c.states[c.records.len() as int].scheduler,
        after.local_scope == c.states[c.records.len() as int].local_scope,
        c.records[c.records.len() - 1].stop_reason is Some ==> after.stop_reason
            == c.records[c.records.len() - 1].stop_reason,
        c.records[c.records.len() - 1].stop_reason is None ==> {
            let reading = c.readings[c.records.len() - 1];
            ||| reading.elapsed.nanos > runner.limits.time_limit.nanos && after.stop_reason == Some(
                StopReason::TimeLimit(reading.elapsed),
            )
            ||| reading.elapsed.nanos <= runner.limits.time_limit.nanos && reading.size
                > runner.limits.node_limit && after.stop_reason == Some(
                StopReason::NodeLimit(reading.size),
            )
            ||| reading.elapsed.nanos <= runner.limits.time_limit.nanos && reading.size
                <= runner.limits.node_limit && after.iterations@.len() >= runner.limits.iter_limit
                && after.stop_reason == Some(
                StopReason::IterationLimit(after.iterations@.len() as usize),
            )
        },
{
    let states = states_of(runner, rules, after);
    let n = (states.len() - 1) as nat;
    let parts = Seq::new(n, |k: int| round_parts(states[k], rules, states[k + 1]));
    let c = RunCourse {
        states,
        mids: Seq::new(n, |k: int| parts[k].0),
        records: Seq::new(n, |k: int| parts[k].1),
        readings: Seq::new(
            n,
            |k: int| limits_reading(states[k + 1], reason_at(k, n, after.stop_reason)),
        ),
    };
    assert forall|k: int| 0 <= k < n implies {
        &&& iterates(states[k], rules, c.mids[k], c.records[k])
        &&& states[k + 1] == (RunnerLocal { iterations: states[k + 1].iterations, ..c.mids[k] })
        &&& (#[trigger] states[k + 1]).iterations@ == c.mids[k].iterations@.push(c.records[k])
        &&& states[k + 1].iterations@ == states[k].iterations@.push(c.records[k])
    } by {
        assert(rounds(states[k + 1 - 1], rules, states[k + 1]));
        law_iteration_keeps_records_and_limits(states[k], rules, c.mids[k], c.records[k]);
    }
    assert forall|k: int| 0 <= k < c.records.len() implies iterates(
        c.states[k],
        rules,
        c.mids[k],
        #[trigger] c.records[k],
    ) by {
        let next = states[k + 1];
    }
    lemma_states_keep(runner, rules, states, c.records, n as int);
    assert(c.records.take(n as int) =~= c.records);
    assert forall|k: int| 0 <= k < n implies ({
        let last = #[trigger] states[k + 1];
        &&& last.iterations@.last() == c.records[k]
        &&& k < n - 1 ==> decides(last, None)
        &&& last.iterations.len() == last.iterations@.len()
        &&& last.limits.time_limit == runner.limits.time_limit
        &&& last.limits.node_limit == runner.limits.node_limit
        &&& last.limits.iter_limit == runner.limits.iter_limit
    }) by {
        lemma_states_keep(runner, rules, states, c.records, k + 1);
        assert(k < n - 1 ==> decides(states[k + 1], None));
    }
    assert forall|k: int| 0 <= k < n - 1 implies (#[trigger] c.records[k]).stop_reason is None by {
        assert(decides(states[k + 1], None));
    }
    assert forall|k: int| 0 <= k < n && c.records[k].stop_reason is None implies ({
        let reading = #[trigger] c.readings[k];
        &&& reads(states[k + 1].limits, states[k + 1].egraph, reading)
        &&& k < n - 1 ==> states[k + 1].limits.verdict(
            states[k + 1].iterations@.len() as usize,
            reading,
        ) is Ok
        &&& k == n - 1 ==> after.stop_reason == match states[k + 1].limits.verdict(
            states[k + 1].iterations@.len() as usize,
            reading,
        ) {
            Ok(_) => None,
            Err(limit) => Some(limit),
        }
    }) by {
        assert(decides(states[k + 1], reason_at(k, n, after.stop_reason)));
        assert(states[k + 1].iterations@.last() == c.records[k]);
    }
    c
}

/// The runner after the iteration of a round, and its record.
spec fn round_parts<G: EGraph, S: LocalRewriteScheduler<G>, H: LocalHook<G>>(
    runner: RunnerLocal<G, S, H>,
    rules: Vec<Rewrite<G>>,
    after: RunnerLocal<G, S, H>,
) -> (RunnerLocal<G, S, H>, Iteration<()>) {
    choose|mid: RunnerLocal<G, S, H>, it: Iteration<()>|
        {
            &&& #[trigger] iterates(runner, rules, mid, it)
            &&& after == (RunnerLocal { iterations: after.iterations, ..mid })
            &&& after.iterations@ == mid.iterations@.push(it)
        }
}

/// The reason for which a run of `n` iterations stops after iteration `k`, if it does.
spec fn reason_at(k: int, n: nat, reason: Option<StopReason>) -> Option<StopReason> {
    if k < n - 1 {
        None
    } else {
        reason
    }
}

/// What the limits were held against after a round without a reason of its own.
spec fn limits_reading<G: EGraph, S, H>(
    runner: RunnerLocal<G, S, H>,
    reason: Option<StopReason>,
) -> LimitReading {
    choose|reading: LimitReading|
        {
            &&& #[trigger] reads(runner.limits, runner.egraph, reading)
            &&& reason == match runner.limits.verdict(
                runner.iterations@.len() as usize,
                reading,
            ) {
                Ok(_) => None,
                Err(limit) => Some(limit),
            }
        }
}

/// What the states of a run keep.
proof fn lemma_states_keep<G: EGraph, S: LocalRewriteScheduler<G>, H: LocalHook<G>>(
    runner: RunnerLocal<G, S, H>,
    rules: Vec<Rewrite<G>>,
    states: Seq<RunnerLocal<G, S, H>>,
    records: Seq<Iteration<()>>,
    k: int,
)
    requires
        run_chain(runner, rules, states),
        records.len() == states.len() - 1,
        0 <= k < states.len(),
        forall|j: int|
            0 <= j < records.len() ==> (#[trigger] states[j + 1]).iterations@
                == states[j].iterations@.push(records[j]),
    ensures
        states[k].iterations@ == runner.iterations@ + records.take(k),
        states[k].limits.time_limit == runner.limits.time_limit,
        states[k].limits.node_limit == runner.limits.node_limit,
        states[k].limits.iter_limit == runner.limits.iter_limit,
    decreases k,
{
    if k == 0 {
        assert(runner.iterations@ + records.take(0) =~= runner.iterations@);
    } else {
        lemma_states_keep(runner, rules, states, records, k - 1);
        assert(rounds(states[k - 1], rules, states[k]));
        let (mid, it) = iteration_of(states[k - 1], rules, states[k]);
        law_iteration_keeps_records_and_limits(states[k - 1], rules, mid, it);
        let before = k - 1;
        assert(states[before + 1].iterations@ == states[before].iterations@.push(records[before]));
        assert(records.take(k) =~= records.take(k - 1).push(records[k - 1]));
        assert(runner.iterations@ + records.take(k) =~= (runner.iterations@ + records.take(
            k - 1,
        )).push(records[k - 1]));
    }
}

} // verus!
