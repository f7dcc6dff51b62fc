//! What holds of iterations and runs as a whole.
use vstd::prelude::*;

use crate::apply::{ApplyStep, step_result, steps_of, tally_at, tally_of};
use crate::egraph::{EGraph, Id, Rewrite, SearchMatches, rebuilds};
use crate::hook::{HookScope, LocalHook, hooks_run};
use crate::index_map::{distinct, law_put_keeps_order, lemma_find};
use crate::limits::LocalRunnerLimits;
use crate::outcome::{Iteration, RunnerResult, StopReason};
use crate::runner::{
    IterationTrace, RunnerLocal, decides, iterates, iteration_of,
    law_iteration_keeps_records_and_limits, rounds, run_chain, runs, states_of, trace_of,
};
use crate::scheduler::{LocalRewriteScheduler, asks, searches};
use crate::scope::{
    ScopeRoots, created, law_covering_scope_keeps_covering, law_created_is_what_is_new,
    law_scope_gains_what_was_created, law_scope_keeps_its_classes, law_scope_repeats_nothing,
    law_scope_rests_without_creation, outside,
};

verus! {

/// Without hooks nothing happens between the check of the limits and the search.
proof fn lemma_no_hooks<G, H: LocalHook<G>>(
    before: Seq<H>,
    scope: HookScope<G>,
    iterations: Vec<Iteration<()>>,
    after: Seq<H>,
    changed: HookScope<G>,
    res: RunnerResult<()>,
)
    requires
        hooks_run(before, scope, iterations, after, changed, res),
        before.len() == 0,
    ensures
        after.len() == 0,
        changed == scope,
        res is Ok,
{
}

/// A run that has reached its limit on iterations does no more than rebuild: no hook is
/// run, no rule is searched or applied, and the iteration gives a reason to stop.
pub proof fn law_limit_refuses_iteration<
    G: EGraph,
    S: LocalRewriteScheduler<G>,
    H: LocalHook<G>,
>(
    runner: RunnerLocal<G, S, H>,
    rules: Vec<Rewrite<G>>,
    after: RunnerLocal<G, S, H>,
    it: Iteration<()>,
)
    requires
        iterates(runner, rules, after, it),
        runner.iterations@.len() >= runner.limits.iter_limit,
    ensures
        it.stop_reason is Some,
        it.stop_reason != Some(StopReason::Saturated),
        it.applied@.len() == 0,
        after.hooks@ == runner.hooks@,
        after.roots == runner.roots,
        rebuilds(runner.egraph, after.egraph, it.n_rebuilds),
        exists|stop: bool| #[trigger]
            asks(runner.scheduler, runner.iterations@.len() as usize, after.scheduler, stop),
        lists_alike(runner.egraph) ==> after.local_scope@ == runner.local_scope@,
{
    assert(runner.iterations.len() == runner.iterations@.len());
    let t = trace_of(runner, rules, after, it);
    assert(asks(
        runner.scheduler,
        runner.iterations@.len() as usize,
        after.scheduler,
        t.can_stop,
    ));
    if lists_alike(runner.egraph) {
        law_scope_rests_without_creation(
            t.hooked.local_scope@,
            t.ids_before@,
            t.ids_after@,
            t.roots,
        );
    }
}

/// The e-graph lists the same e-classes each time it is asked.
pub open spec fn lists_alike<G: EGraph>(egraph: G) -> bool {
    forall|a: Vec<Id>, b: Vec<Id>|
        #[trigger] call_ensures(G::class_ids, (&egraph,), a) && #[trigger] call_ensures(
            G::class_ids,
            (&egraph,),
            b,
        ) ==> a@ == b@
}

/// An iteration that ends the run as saturated applied no rule.
pub proof fn law_saturation_means_nothing_was_applied<
    G: EGraph,
    S: LocalRewriteScheduler<G>,
    H: LocalHook<G>,
>(
    runner: RunnerLocal<G, S, H>,
    rules: Vec<Rewrite<G>>,
    after: RunnerLocal<G, S, H>,
    it: Iteration<()>,
)
    requires
        iterates(runner, rules, after, it),
        it.stop_reason == Some(StopReason::Saturated),
    ensures
        it.applied@.len() == 0,
{
    let t = trace_of(runner, rules, after, it);
    if t.found is Ok {
        let i = runner.iterations@.len() as usize;
        let matches = t.found->Ok_0@;
        let steps = steps_of(
            t.limits,
            i,
            rules@,
            matches,
            t.scheduler,
            t.hooked.egraph,
            t.applied,
        );
        if t.applied.result is Err {
            let last = step_result(t.limits, i, rules@, steps, steps.len() - 1);
            assert(last == t.applied.result);
        }
    }
}

/// Without hooks an iteration keeps the roots, and its scope only grows: what it held
/// stays in front, and it repeats nothing that it did not repeat before.
pub proof fn law_iteration_only_grows_scope<
    G: EGraph,
    S: LocalRewriteScheduler<G>,
    H: LocalHook<G>,
>(
    runner: RunnerLocal<G, S, H>,
    rules: Vec<Rewrite<G>>,
    after: RunnerLocal<G, S, H>,
    it: Iteration<()>,
)
    requires
        iterates(runner, rules, after, it),
        runner.hooks@.len() == 0,
    ensures
        after.hooks@.len() == 0,
        after.roots == runner.roots,
        runner.local_scope@.is_prefix_of(after.local_scope@),
        runner.local_scope@.no_duplicates() ==> after.local_scope@.no_duplicates(),
{
    let t = trace_of(runner, rules, after, it);
    lemma_hooked_is_unchanged(runner, t);
    law_scope_keeps_its_classes(t.hooked.local_scope@, t.ids_before@, t.ids_after@, t.roots);
    if runner.local_scope@.no_duplicates() {
        law_scope_repeats_nothing(t.hooked.local_scope@, t.ids_before@, t.ids_after@, t.roots);
    }
}

/// Without hooks the e-graph, the roots and the scope are searched as they were.
proof fn lemma_hooked_is_unchanged<G: EGraph, S: LocalRewriteScheduler<G>, H: LocalHook<G>>(
    runner: RunnerLocal<G, S, H>,
    t: IterationTrace<G, S, H>,
)
    requires
        t.begins(runner),
        runner.hooks@.len() == 0,
    ensures
        t.hooks@.len() == 0,
        t.hooked.egraph == runner.egraph,
        t.hooked.roots == runner.roots,
        t.hooked.local_scope == runner.local_scope,
{
    let i = runner.iterations@.len() as usize;
    if t.limits.verdict(i, t.reading) is Ok {
        lemma_no_hooks(
            runner.hooks@,
            runner.hook_scope(),
            runner.iterations,
            t.hooks@,
            t.hooked,
            t.begun,
        );
    }
}

/// Without hooks an iteration that applied a rule searched all rules from the scope as it
/// was at its start: e-classes that the iteration creates are searched only in the next.
pub proof fn law_search_starts_from_scope<
    G: EGraph,
    S: LocalRewriteScheduler<G>,
    H: LocalHook<G>,
>(
    runner: RunnerLocal<G, S, H>,
    rules: Vec<Rewrite<G>>,
    after: RunnerLocal<G, S, H>,
    it: Iteration<()>,
)
    requires
        iterates(runner, rules, after, it),
        runner.hooks@.len() == 0,
        it.applied@.len() > 0,
    ensures
        exists|scheduler: S, found: RunnerResult<Vec<Vec<SearchMatches<G::Subst>>>>|
            found is Ok && #[trigger] searches(
                runner.scheduler,
                runner.iterations@.len() as usize,
                runner.egraph,
                rules,
                runner.local_scope,
                scheduler,
                found,
            ),
{
    let t = trace_of(runner, rules, after, it);
    lemma_hooked_is_unchanged(runner, t);
}

/// `scope` becomes `grown`: it gains the e-classes that `after` lists and `before` does
/// not, but for those whose root in the rebuilt e-graph is that of an e-class of `before`
/// outside the scope and of none in the scope.
pub open spec fn gains_created<G: EGraph>(
    egraph: G,
    scope: Seq<Id>,
    before: Seq<Id>,
    after: Seq<Id>,
    roots: ScopeRoots,
    grown: Seq<Id>,
) -> bool {
    &&& created(before, after).len() > 0 ==> roots.found_in(
        egraph,
        scope,
        before,
        created(before, after),
    )
    &&& forall|id: Id| #[trigger]
        grown.contains(id) <==> scope.contains(id) || exists|k: int|
            0 <= k < created(before, after).len() && #[trigger] created(before, after)[k] == id
                && !roots.keeps_out(roots.created[k])
    &&& forall|id: Id| #[trigger]
        created(before, after).contains(id) <==> after.contains(id) && !before.contains(id)
}

/// Without hooks the scope grows in an iteration by exactly the e-classes that are in the
/// e-graph once the rules were applied, before it is rebuilt, and were not there at the
/// start, unless rebuilding merged them into an e-class that was there outside the scope.
pub proof fn law_created_classes_join_scope<
    G: EGraph,
    S: LocalRewriteScheduler<G>,
    H: LocalHook<G>,
>(
    runner: RunnerLocal<G, S, H>,
    rules: Vec<Rewrite<G>>,
    after: RunnerLocal<G, S, H>,
    it: Iteration<()>,
)
    requires
        iterates(runner, rules, after, it),
        runner.hooks@.len() == 0,
    ensures
        exists|rewritten: G, ids_before: Vec<Id>, ids_after: Vec<Id>, roots: ScopeRoots|
            {
                &&& call_ensures(G::class_ids, (&runner.egraph,), ids_before)
                &&& #[trigger] call_ensures(G::class_ids, (&rewritten,), ids_after)
                &&& rebuilds(rewritten, after.egraph, it.n_rebuilds)
                &&& #[trigger] gains_created(
                    after.egraph,
                    runner.local_scope@,
                    ids_before@,
                    ids_after@,
                    roots,
                    after.local_scope@,
                )
            },
{
    let t = trace_of(runner, rules, after, it);
    lemma_hooked_is_unchanged(runner, t);
    assert(call_ensures(G::class_ids, (&t.applied.egraph,), t.ids_after));
    let before = t.ids_before@;
    let new = created(before, t.ids_after@);
    law_created_is_what_is_new(before, t.ids_after@);
    assert forall|id: Id| #[trigger]
        after.local_scope@.contains(id) <==> runner.local_scope@.contains(id) || exists|k: int|
            0 <= k < new.len() && #[trigger] new[k] == id && !t.roots.keeps_out(
                t.roots.created[k],
            ) by {
        law_scope_gains_what_was_created(
            runner.local_scope@,
            before,
            t.ids_after@,
            t.roots,
            id,
        );
    }
    assert(gains_created(
        after.egraph,
        runner.local_scope@,
        before,
        t.ids_after@,
        t.roots,
        after.local_scope@,
    ));
}

/// The e-graph has one root for each e-class.
pub open spec fn finds_alike<G: EGraph>(egraph: G) -> bool {
    forall|id: Id, a: Id, b: Id|
        #[trigger] call_ensures(G::find, (&egraph, id), a) && #[trigger] call_ensures(
            G::find,
            (&egraph, id),
            b,
        ) ==> a == b
}

/// Without hooks, an e-class that was not there at the start of an iteration, and that its
/// end finds merged with one that was there outside the scope and with none of the scope,
/// is not in the scope afterwards; nor is the one that it was merged with.
pub proof fn law_merged_class_stays_out_of_scope<
    G: EGraph,
    S: LocalRewriteScheduler<G>,
    H: LocalHook<G>,
>(
    runner: RunnerLocal<G, S, H>,
    rules: Vec<Rewrite<G>>,
    after: RunnerLocal<G, S, H>,
    it: Iteration<()>,
    new: Id,
    old: Id,
    root: Id,
)
    requires
        iterates(runner, rules, after, it),
        runner.hooks@.len() == 0,
        finds_alike(after.egraph),
        forall|ids: Vec<Id>| #[trigger]
            call_ensures(G::class_ids, (&runner.egraph,), ids) ==> ids@.contains(old)
                && !ids@.contains(new),
        !runner.local_scope@.contains(new),
        !runner.local_scope@.contains(old),
        call_ensures(G::find, (&after.egraph, new), root),
        call_ensures(G::find, (&after.egraph, old), root),
        forall|id: Id| #[trigger]
            runner.local_scope@.contains(id) ==> !call_ensures(
                G::find,
                (&after.egraph, id),
                root,
            ),
    ensures
        !after.local_scope@.contains(new),
        !after.local_scope@.contains(old),
{
    law_created_classes_join_scope(runner, rules, after, it);
    let (rewritten, ids_before, ids_after, roots) = choose|
        rewritten: G,
        ids_before: Vec<Id>,
        ids_after: Vec<Id>,
        roots: ScopeRoots,
    |
        {
            &&& call_ensures(G::class_ids, (&runner.egraph,), ids_before)
            &&& #[trigger] call_ensures(G::class_ids, (&rewritten,), ids_after)
            &&& rebuilds(rewritten, after.egraph, it.n_rebuilds)
            &&& #[trigger] gains_created(
                after.egraph,
                runner.local_scope@,
                ids_before@,
                ids_after@,
                roots,
                after.local_scope@,
            )
        };
    let scope = runner.local_scope@;
    let fresh = created(ids_before@, ids_after@);
    let out = outside(scope, ids_before@);
    law_created_is_what_is_new(scope, ids_before@);
    assert(out.contains(old));
    if fresh.len() > 0 {
        let o = out.index_of(old);
        assert(call_ensures(G::find, (&after.egraph, out[o]), roots.outside[o]));
        assert(roots.outside[o] == root);
        if roots.scope.contains(root) {
            let j = roots.scope.index_of(root);
            assert(call_ensures(G::find, (&after.egraph, scope[j]), roots.scope[j]));
            assert(scope.contains(scope[j]));
        }
        assert(roots.keeps_out(root));
    }
    if after.local_scope@.contains(new) {
        let k = choose|k: int|
            0 <= k < fresh.len() && #[trigger] fresh[k] == new && !roots.keeps_out(
                roots.created[k],
            );
        assert(call_ensures(G::find, (&after.egraph, fresh[k]), roots.created[k]));
        assert(roots.created[k] == root);
    }
    if after.local_scope@.contains(old) {
        let k = choose|k: int|
            0 <= k < fresh.len() && #[trigger] fresh[k] == old && !roots.keeps_out(
                roots.created[k],
            );
        assert(fresh.contains(fresh[k]));
    }
}

/// Without hooks, a scope that holds every e-class that the e-graph lists keeps holding
/// every one, where rebuilding lists no e-class that was not listed before it.
pub proof fn law_covering_scope_stays_covering<
    G: EGraph,
    S: LocalRewriteScheduler<G>,
    H: LocalHook<G>,
>(
    runner: RunnerLocal<G, S, H>,
    rules: Vec<Rewrite<G>>,
    after: RunnerLocal<G, S, H>,
    it: Iteration<()>,
    listed: Vec<Id>,
    id: Id,
)
    requires
        iterates(runner, rules, after, it),
        runner.hooks@.len() == 0,
        covers(runner),
        forall|rewritten: G, n: usize, ids: Vec<Id>, id: Id|
            #[trigger] rebuilds(rewritten, after.egraph, n) && #[trigger] call_ensures(
                G::class_ids,
                (&rewritten,),
                ids,
            ) && #[trigger] listed@.contains(id) ==> ids@.contains(id),
        call_ensures(G::class_ids, (&after.egraph,), listed),
        listed@.contains(id),
    ensures
        after.local_scope@.contains(id),
{
    let t = trace_of(runner, rules, after, it);
    lemma_hooked_is_unchanged(runner, t);
    assert(rebuilds(t.applied.egraph, after.egraph, t.n_rebuilds));
    assert(call_ensures(G::class_ids, (&t.applied.egraph,), t.ids_after));
    assert(t.ids_after@.contains(id));
    law_covering_scope_keeps_covering(
        after.egraph,
        runner.local_scope@,
        t.ids_before@,
        t.ids_after@,
        t.roots,
        id,
    );
}

/// The scope holds every e-class that the e-graph lists.
pub open spec fn covers<G: EGraph, S, H>(runner: RunnerLocal<G, S, H>) -> bool {
    forall|ids: Vec<Id>, id: Id|
        #[trigger] call_ensures(G::class_ids, (&runner.egraph,), ids)
            && #[trigger] ids@.contains(id) ==> runner.local_scope@.contains(id)
}

/// A rebuilt e-graph lists no e-class that it did not list before.
pub open spec fn rebuilding_lists_nothing_new<G: EGraph>() -> bool {
    forall|before: G, after: G, n: usize, ids: Vec<Id>, listed: Vec<Id>, id: Id|
        #[trigger] rebuilds(before, after, n) && #[trigger] call_ensures(
            G::class_ids,
            (&before,),
            ids,
        ) && #[trigger] call_ensures(G::class_ids, (&after,), listed)
            && #[trigger] listed@.contains(id) ==> ids@.contains(id)
}

/// What holds of the scope after `k` rounds of a run from a scope that covers the e-graph.
proof fn lemma_run_state_covers<G: EGraph, S: LocalRewriteScheduler<G>, H: LocalHook<G>>(
    runner: RunnerLocal<G, S, H>,
    rules: Vec<Rewrite<G>>,
    states: Seq<RunnerLocal<G, S, H>>,
    k: int,
)
    requires
        run_chain(runner, rules, states),
        0 <= k < states.len(),
        runner.hooks@.len() == 0,
        rebuilding_lists_nothing_new::<G>(),
        exists|ids: Vec<Id>| #[trigger] call_ensures(G::class_ids, (&runner.egraph,), ids),
        covers(runner),
    ensures
        covers(states[k]),
    decreases k,
{
    let after = states[k];
    if k == 0 {
        let n = choose|n: usize| #[trigger] rebuilds(runner.egraph, after.egraph, n);
        let listed = choose|ids: Vec<Id>| #[trigger]
            call_ensures(G::class_ids, (&runner.egraph,), ids);
        assert(rebuilds(runner.egraph, after.egraph, n));
        assert forall|ids: Vec<Id>, id: Id|
            #[trigger] call_ensures(G::class_ids, (&after.egraph,), ids)
                && #[trigger] ids@.contains(id) implies after.local_scope@.contains(id) by {
            assert(listed@.contains(id));
        }
    } else {
        let before = states[k - 1];
        lemma_run_state_covers(runner, rules, states, k - 1);
        lemma_run_state(runner, rules, states, k - 1);
        assert(rounds(before, rules, after));
        let (mid, it) = iteration_of(before, rules, after);
        assert forall|ids: Vec<Id>, id: Id|
            #[trigger] call_ensures(G::class_ids, (&after.egraph,), ids)
                && #[trigger] ids@.contains(id) implies after.local_scope@.contains(id) by {
            law_covering_scope_stays_covering(before, rules, mid, it, ids, id);
        }
    }
}

/// Without hooks, a run from a scope that holds every e-class that the e-graph lists ends
/// with such a scope, where rebuilding an e-graph lists no new e-class.
pub proof fn law_run_keeps_scope_covering<
    G: EGraph,
    S: LocalRewriteScheduler<G>,
    H: LocalHook<G>,
>(
    runner: RunnerLocal<G, S, H>,
    rules: Vec<Rewrite<G>>,
    after: RunnerLocal<G, S, H>,
    listed: Vec<Id>,
)
    requires
        runs(runner, rules, after),
        runner.hooks@.len() == 0,
        rebuilding_lists_nothing_new::<G>(),
        call_ensures(G::class_ids, (&runner.egraph,), listed),
        covers(runner),
    ensures
        covers(after),
{
    let states = states_of(runner, rules, after);
    lemma_run_state_covers(runner, rules, states, states.len() - 1);
}

/// The tally lists each rule once, and only rules that were applied.
proof fn lemma_tally<G: EGraph, S>(
    rules: Seq<Rewrite<G>>,
    steps: Seq<ApplyStep<G, S>>,
    k: int,
)
    requires
        0 <= k <= steps.len(),
        k <= rules.len(),
    ensures
        distinct(tally_at(rules, steps, k)),
        forall|i: int|
            0 <= i < tally_at(rules, steps, k).len() ==> (#[trigger] tally_at(
                rules,
                steps,
                k,
            )[i]).1 > 0,
    decreases k,
{
    if k > 0 {
        lemma_tally(rules, steps, k - 1);
        let before = tally_at(rules, steps, k - 1);
        let after = tally_at(rules, steps, k);
        if after != before {
            let name = rules[k - 1].name@;
            lemma_find(before, name);
            law_put_keeps_order(
                before,
                name,
                (tally_of(before, name) + steps[k - 1].count) as usize,
            );
        }
    }
}

/// The record of an iteration lists each rule that was applied once, with how often, and
/// leaves out those that were not.
pub proof fn law_record_lists_applied_rules<
    G: EGraph,
    S: LocalRewriteScheduler<G>,
    H: LocalHook<G>,
>(
    runner: RunnerLocal<G, S, H>,
    rules: Vec<Rewrite<G>>,
    after: RunnerLocal<G, S, H>,
    it: Iteration<()>,
)
    requires
        iterates(runner, rules, after, it),
    ensures
        distinct(it.applied@),
        forall|i: int| 0 <= i < it.applied@.len() ==> (#[trigger] it.applied@[i]).1 > 0,
{
    let t = trace_of(runner, rules, after, it);
    if t.found is Ok {
        let i = runner.iterations@.len() as usize;
        let matches = t.found->Ok_0@;
        let steps = steps_of(
            t.limits,
            i,
            rules@,
            matches,
            t.scheduler,
            t.hooked.egraph,
            t.applied,
        );
        lemma_tally(rules@, steps, steps.len() as int);
    }
}

/// What a round keeps and adds.
proof fn lemma_round<G: EGraph, S: LocalRewriteScheduler<G>, H: LocalHook<G>>(
    runner: RunnerLocal<G, S, H>,
    rules: Vec<Rewrite<G>>,
    after: RunnerLocal<G, S, H>,
)
    requires
        rounds(runner, rules, after),
    ensures
        after.iterations@.len() == runner.iterations@.len() + 1,
        after.iterations@.drop_last() == runner.iterations@,
        after.stop_reason == runner.stop_reason,
        after.limits == (LocalRunnerLimits {
            start_time: after.limits.start_time,
            ..runner.limits
        }),
        runner.hooks@.len() == 0 ==> {
            &&& after.hooks@.len() == 0
            &&& after.roots == runner.roots
            &&& runner.local_scope@.is_prefix_of(after.local_scope@)
        },
        runner.hooks@.len() == 0 && runner.local_scope@.no_duplicates()
            ==> after.local_scope@.no_duplicates(),
{
    let (mid, it) = iteration_of(runner, rules, after);
    law_iteration_keeps_records_and_limits(runner, rules, mid, it);
    if runner.hooks@.len() == 0 {
        law_iteration_only_grows_scope(runner, rules, mid, it);
    }
    assert(after.iterations@.drop_last() =~= runner.iterations@);
}

/// What holds of the state of a run after `k` rounds.
proof fn lemma_run_state<G: EGraph, S: LocalRewriteScheduler<G>, H: LocalHook<G>>(
    runner: RunnerLocal<G, S, H>,
    rules: Vec<Rewrite<G>>,
    states: Seq<RunnerLocal<G, S, H>>,
    k: int,
)
    requires
        run_chain(runner, rules, states),
        0 <= k < states.len(),
    ensures
        states[k].iterations@.len() == runner.iterations@.len() + k,
        runner.iterations@.is_prefix_of(states[k].iterations@),
        states[k].stop_reason == runner.stop_reason,
        states[k].limits == (LocalRunnerLimits {
            start_time: states[k].limits.start_time,
            ..runner.limits
        }),
        forall|j: int|
            runner.iterations@.len() <= j < states[k].iterations@.len() - 1 ==> (
            #[trigger] states[k].iterations@[j]).stop_reason is None,
        runner.hooks@.len() == 0 ==> {
            &&& states[k].hooks@.len() == 0
            &&& states[k].roots == runner.roots
            &&& runner.local_scope@.is_prefix_of(states[k].local_scope@)
        },
        runner.hooks@.len() == 0 && runner.local_scope@.no_duplicates()
            ==> states[k].local_scope@.no_duplicates(),
    decreases k,
{
    if k > 0 {
        let before = states[k - 1];
        let after = states[k];
        lemma_run_state(runner, rules, states, k - 1);
        lemma_round(before, rules, after);
        assert(after.iterations@ =~= before.iterations@.push(after.iterations@.last()));
        assert forall|j: int|
            runner.iterations@.len() <= j < after.iterations@.len() - 1 implies (
        #[trigger] after.iterations@[j]).stop_reason is None by {
            assert(after.iterations@[j] == before.iterations@[j]);
            if j == before.iterations@.len() - 1 {
                assert(decides(before, None));
            }
        }
    }
}

/// A run ends with a reason to stop, after at least one iteration. It keeps the records
/// of earlier iterations and the limits, and of its own iterations at most the last gives
/// a reason to stop, which is then that of the run.
pub proof fn law_run_ends_with_a_reason<
    G: EGraph,
    S: LocalRewriteScheduler<G>,
    H: LocalHook<G>,
>(runner: RunnerLocal<G, S, H>, rules: Vec<Rewrite<G>>, after: RunnerLocal<G, S, H>)
    requires
        runs(runner, rules, after),
    ensures
        after.stop_reason is Some,
        after.iterations@.len() > runner.iterations@.len(),
        runner.iterations@.is_prefix_of(after.iterations@),
        after.limits == (LocalRunnerLimits {
            start_time: after.limits.start_time,
            ..runner.limits
        }),
        forall|j: int|
            runner.iterations@.len() <= j < after.iterations@.len() - 1 ==> (
            #[trigger] after.iterations@[j]).stop_reason is None,
        after.iterations@.last().stop_reason is Some ==> after.stop_reason
            == after.iterations@.last().stop_reason,
{
    let states = states_of(runner, rules, after);
    lemma_run_state(runner, rules, states, states.len() - 1);
}

/// A run never has more iterations than its limit allows, but for the one in which it
/// finds that the limit was reached before.
pub proof fn law_run_keeps_iteration_limit<
    G: EGraph,
    S: LocalRewriteScheduler<G>,
    H: LocalHook<G>,
>(runner: RunnerLocal<G, S, H>, rules: Vec<Rewrite<G>>, after: RunnerLocal<G, S, H>)
    requires
        runs(runner, rules, after),
    ensures
        after.iterations@.len() <= runner.limits.iter_limit || after.iterations@.len()
            == runner.iterations@.len() + 1,
{
    let states = states_of(runner, rules, after);
    let n = states.len() - 1;
    lemma_run_state(runner, rules, states, n);
    if n > 1 {
        lemma_run_state(runner, rules, states, n - 1);
        assert(decides(states[n - 1], None));
        lemma_run_state(runner, rules, states, n - 2);
        lemma_round(states[n - 2], rules, states[n - 1]);
        lemma_goes_on_below_limit(states[n - 1]);
    }
}

/// A run that goes on has not reached its limit on iterations.
proof fn lemma_goes_on_below_limit<G: EGraph, S, H>(runner: RunnerLocal<G, S, H>)
    requires
        decides(runner, None),
    ensures
        runner.iterations@.len() < runner.limits.iter_limit,
{
    assert(runner.iterations.len() == runner.iterations@.len());
}

/// Without hooks a run keeps the roots, and its scope only grows: what it held stays in
/// front, and it repeats nothing that it did not repeat before.
pub proof fn law_run_only_grows_scope<
    G: EGraph,
    S: LocalRewriteScheduler<G>,
    H: LocalHook<G>,
>(runner: RunnerLocal<G, S, H>, rules: Vec<Rewrite<G>>, after: RunnerLocal<G, S, H>)
    requires
        runs(runner, rules, after),
        runner.hooks@.len() == 0,
    ensures
        after.hooks@.len() == 0,
        after.roots == runner.roots,
        runner.local_scope@.is_prefix_of(after.local_scope@),
        runner.local_scope@.no_duplicates() ==> after.local_scope@.no_duplicates(),
{
    let states = states_of(runner, rules, after);
    lemma_run_state(runner, rules, states, states.len() - 1);
}

} // verus!
