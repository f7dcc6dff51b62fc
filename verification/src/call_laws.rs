//! What the runner hands to the e-graph, the hooks and the scheduler, and takes from them.
use vstd::prelude::*;

use crate::backoff::LocalBackoffScheduler;
use crate::egraph::{EGraph, Id, Rewrite, SearchMatches, adds, rebuilds};
use crate::hook::{HookScope, LocalHook, call_boxed, calls};
use crate::outcome::{Iteration, RunnerResult, StopReason};
use crate::runner::RunnerLocal;
use crate::scheduler::{
    LocalRewriteScheduler, LocalSimpleScheduler, LocalStopPolicy, applies, asks, gathered, searches,
};

verus! {

/// Rebuilding is one call of the e-graph's own.
pub proof fn law_rebuilding_is_one_call<G: EGraph>(before: G, after: G, n: usize)
    requires
        rebuilds(before, after, n),
    ensures
        exists|g: &mut G|
            *g == before && *final(g) == after && #[trigger] call_ensures(G::rebuild, (g,), n),
{
}

/// Adding an expression is one call of the e-graph's own, with that expression.
pub proof fn law_adding_is_one_call<G: EGraph>(before: G, expr: G::Expr, after: G, id: Id)
    requires
        adds(before, expr, after, id),
    ensures
        exists|g: &mut G|
            *g == before && *final(g) == after && #[trigger] call_ensures(
                G::add_expr,
                (g, &expr),
                id,
            ),
{
}

/// Running a hook is one call of it, with the scope and the records as they are.
pub proof fn law_running_a_hook_is_one_call<G, H: LocalHook<G>>(
    before: H,
    scope: HookScope<G>,
    iterations: Vec<Iteration<()>>,
    after: H,
    changed: HookScope<G>,
    out: Result<(), String>,
)
    requires
        calls(before, scope, iterations, after, changed, out),
    ensures
        exists|h: &mut H, s: &mut HookScope<G>|
            {
                &&& *h == before
                &&& *final(h) == after
                &&& *s == scope
                &&& *final(s) == changed
                &&& #[trigger] call_ensures(
                    <H as LocalHook<G>>::call,
                    (h, s, &iterations),
                    out,
                )
            },
{
}

/// Asking whether to stop is one call of the scheduler's own.
pub proof fn law_asking_is_one_call<S: LocalStopPolicy>(
    before: S,
    iteration: usize,
    after: S,
    stop: bool,
)
    requires
        asks(before, iteration, after, stop),
    ensures
        exists|s: &mut S|
            *s == before && *final(s) == after && #[trigger] call_ensures(
                S::can_stop,
                (s, iteration),
                stop,
            ),
{
}

/// Searching is one call of the scheduler's own, with all rules and the scope.
pub proof fn law_searching_is_one_call<G: EGraph, S: LocalRewriteScheduler<G>>(
    before: S,
    iteration: usize,
    egraph: G,
    rewrites: Vec<Rewrite<G>>,
    local_scope: Vec<Id>,
    after: S,
    found: RunnerResult<Vec<Vec<SearchMatches<G::Subst>>>>,
)
    requires
        searches(before, iteration, egraph, rewrites, local_scope, after, found),
    ensures
        exists|s: &mut S|
            *s == before && *final(s) == after && #[trigger] call_ensures(
                <S as LocalRewriteScheduler<G>>::search_rewrites_local,
                (s, iteration, &egraph, &rewrites, &local_scope),
                found,
            ),
{
}

/// Applying a rule is one call of the scheduler's own, with the rule and all its matches.
pub proof fn law_applying_is_one_call<G: EGraph, S: LocalRewriteScheduler<G>>(
    before: S,
    iteration: usize,
    egraph: G,
    rewrite: Rewrite<G>,
    matches: Vec<SearchMatches<G::Subst>>,
    after: S,
    changed: G,
    n: usize,
)
    requires
        applies(before, iteration, egraph, rewrite, matches, after, changed, n),
    ensures
        exists|s: &mut S, g: &mut G|
            {
                &&& *s == before
                &&& *final(s) == after
                &&& *g == egraph
                &&& *final(g) == changed
                &&& #[trigger] call_ensures(
                    <S as LocalRewriteScheduler<G>>::apply_rewrite,
                    (s, iteration, g, &rewrite, matches),
                    n,
                )
            },
{
}

/// The simple scheduler searches every rule from the whole scope without a limit, and
/// returns all that is found, for each rule in its place.
pub proof fn law_simple_scheduler_searches_every_rule<G: EGraph>(
    before: LocalSimpleScheduler,
    iteration: usize,
    egraph: G,
    rewrites: Vec<Rewrite<G>>,
    local_scope: Vec<Id>,
    after: LocalSimpleScheduler,
    res: RunnerResult<Vec<Vec<SearchMatches<G::Subst>>>>,
)
    requires
        searches(before, iteration, egraph, rewrites, local_scope, after, res),
    ensures
        res is Ok,
        res->Ok_0@.len() == rewrites@.len(),
        forall|k: int|
            0 <= k < rewrites@.len() ==> call_ensures(
                G::search_local_with_limit,
                (&egraph, &rewrites@[k].rule, &local_scope, usize::MAX),
                #[trigger] res->Ok_0@[k],
            ),
{
    let s = choose|s: &mut LocalSimpleScheduler|
        *s == before && *final(s) == after && #[trigger] call_ensures(
            <LocalSimpleScheduler as LocalRewriteScheduler<G>>::search_rewrites_local,
            (s, iteration, &egraph, &rewrites, &local_scope),
            res,
        );
    let (states, outs) = choose|
        states: Seq<&mut LocalSimpleScheduler>,
        outs: Seq<RunnerResult<Vec<SearchMatches<G::Subst>>>>,
    |
        {
            &&& #[trigger] states.len() == outs.len()
            &&& #[trigger] gathered(outs, rewrites@.len(), res)
            &&& forall|j: int|
                0 <= j < states.len() ==> call_ensures(
                    <LocalSimpleScheduler as LocalRewriteScheduler<G>>::search_rewrite_local,
                    (#[trigger] states[j], iteration, &egraph, &rewrites@[j], &local_scope),
                    outs[j],
                )
        };
    if res is Err {
        let last = states.len() - 1;
        assert(states[last] == states[last]);
        assert(outs[last] is Err);
    } else {
        assert forall|k: int| 0 <= k < rewrites@.len() implies call_ensures(
            G::search_local_with_limit,
            (&egraph, &rewrites@[k].rule, &local_scope, usize::MAX),
            #[trigger] res->Ok_0@[k],
        ) by {
            assert(call_ensures(
                <LocalSimpleScheduler as LocalRewriteScheduler<G>>::search_rewrite_local,
                (states[k], iteration, &egraph, &rewrites@[k], &local_scope),
                outs[k],
            ));
            assert(outs[k] == Ok::<_, StopReason>(res->Ok_0@[k]));
            assert(outs[k]->Ok_0 == res->Ok_0@[k]);
        }
    }
}

/// The back-off scheduler searches the rules one after the other, each with the scheduler as
/// the search before left it, and returns what each found in its place; the first that gives
/// a reason to stop ends it.
pub proof fn law_back_off_scheduler_searches_in_turn<G: EGraph>(
    before: LocalBackoffScheduler,
    iteration: usize,
    egraph: G,
    rewrites: Vec<Rewrite<G>>,
    local_scope: Vec<Id>,
    after: LocalBackoffScheduler,
    res: RunnerResult<Vec<Vec<SearchMatches<G::Subst>>>>,
)
    requires
        searches(before, iteration, egraph, rewrites, local_scope, after, res),
    ensures
        exists|
            states: Seq<&mut LocalBackoffScheduler>,
            outs: Seq<RunnerResult<Vec<SearchMatches<G::Subst>>>>,
        |
            {
                &&& #[trigger] outs.len() == #[trigger] states.len()
                &&& forall|k: int|
                    0 <= k < states.len() ==> call_ensures(
                        <LocalBackoffScheduler as LocalRewriteScheduler<G>>::search_rewrite_local,
                        (#[trigger] states[k], iteration, &egraph, &rewrites@[k], &local_scope),
                        outs[k],
                    )
                &&& forall|k: int|
                    0 < k < states.len() ==> *(#[trigger] states[k]) == *final(states[k - 1])
                &&& states.len() > 0 ==> *states[0] == before && *final(states.last()) == after
                &&& states.len() == 0 ==> after == before
                &&& res is Ok ==> {
                    &&& states.len() == rewrites@.len()
                    &&& res->Ok_0@.len() == rewrites@.len()
                    &&& forall|k: int|
                        0 <= k < outs.len() ==> #[trigger] outs[k] == Ok::<_, StopReason>(
                            res->Ok_0@[k],
                        )
                }
                &&& res is Err ==> {
                    &&& 0 < states.len() <= rewrites@.len()
                    &&& outs[outs.len() - 1] == Err::<Vec<SearchMatches<G::Subst>>, _>(res->Err_0)
                    &&& forall|k: int| 0 <= k < outs.len() - 1 ==> #[trigger] outs[k] is Ok
                }
            },
{
    let s = choose|s: &mut LocalBackoffScheduler|
        *s == before && *final(s) == after && #[trigger] call_ensures(
            <LocalBackoffScheduler as LocalRewriteScheduler<G>>::search_rewrites_local,
            (s, iteration, &egraph, &rewrites, &local_scope),
            res,
        );
    let (states, outs) = choose|
        states: Seq<&mut LocalBackoffScheduler>,
        outs: Seq<RunnerResult<Vec<SearchMatches<G::Subst>>>>,
    |
        {
            &&& #[trigger] states.len() == outs.len()
            &&& #[trigger] gathered(outs, rewrites@.len(), res)
            &&& forall|j: int|
                0 <= j < states.len() ==> call_ensures(
                    <LocalBackoffScheduler as LocalRewriteScheduler<G>>::search_rewrite_local,
                    (#[trigger] states[j], iteration, &egraph, &rewrites@[j], &local_scope),
                    outs[j],
                )
            &&& forall|j: int|
                0 < j < states.len() ==> *(#[trigger] states[j]) == *final(states[j - 1])
            &&& states.len() > 0 ==> *states[0] == before && *final(states.last()) == after
            &&& states.len() == 0 ==> after == before
        };
    assert(outs.len() == states.len());
}

/// Both schedulers apply a rule at all its matches by one call of the e-graph's own, and
/// count the e-classes that it reports; the scheduler stays as it is.
pub proof fn law_rule_is_applied_at_all_matches<G: EGraph>(
    simple: LocalSimpleScheduler,
    backoff: LocalBackoffScheduler,
    iteration: usize,
    egraph: G,
    rewrite: Rewrite<G>,
    matches: Vec<SearchMatches<G::Subst>>,
    simple_after: LocalSimpleScheduler,
    backoff_after: LocalBackoffScheduler,
    simple_graph: G,
    backoff_graph: G,
    m: usize,
    n: usize,
)
    requires
        applies(simple, iteration, egraph, rewrite, matches, simple_after, simple_graph, m),
        applies(backoff, iteration, egraph, rewrite, matches, backoff_after, backoff_graph, n),
    ensures
        simple_after == simple,
        backoff_after == backoff,
        exists|g: &mut G, changed: Vec<Id>|
            {
                &&& *g == egraph
                &&& *final(g) == simple_graph
                &&& #[trigger] call_ensures(G::apply_rule, (g, &rewrite.rule, &matches), changed)
                &&& m == changed@.len()
            },
        exists|g: &mut G, changed: Vec<Id>|
            {
                &&& *g == egraph
                &&& *final(g) == backoff_graph
                &&& #[trigger] call_ensures(G::apply_rule, (g, &rewrite.rule, &matches), changed)
                &&& n == changed@.len()
            },
{
}

/// A hook in a box is called as the hook that it is.
pub proof fn law_boxed_hook_is_called<G, H: LocalHook<G> + ?Sized>(
    hook: &mut Box<H>,
    scope: &mut HookScope<G>,
    iterations: &Vec<Iteration<()>>,
    out: Result<(), String>,
)
    requires
        call_ensures(call_boxed::<G, H>, (hook, scope, iterations), out),
    ensures
        exists|h: &mut H, s: &mut HookScope<G>|
            {
                &&& &*h == &**old(hook)
                &&& &*final(h) == &**final(hook)
                &&& *s == *old(scope)
                &&& *final(s) == *final(scope)
                &&& #[trigger] call_ensures(<H as LocalHook<G>>::call, (h, s, iterations), out)
            },
{
}

/// A hook of any kind in a box is called through the box.
pub proof fn law_box_calls_its_hook<G>(
    hook: &mut Box<dyn LocalHook<G>>,
    scope: &mut HookScope<G>,
    iterations: &Vec<Iteration<()>>,
    out: Result<(), String>,
)
    requires
        call_ensures(
            <Box<dyn LocalHook<G>> as LocalHook<G>>::call,
            (hook, scope, iterations),
            out,
        ),
    ensures
        exists|h: &mut Box<dyn LocalHook<G>>, s: &mut HookScope<G>|
            {
                &&& *h == *old(hook)
                &&& *final(h) == *final(hook)
                &&& *s == *old(scope)
                &&& *final(s) == *final(scope)
                &&& #[trigger] call_ensures(
                    call_boxed::<G, dyn LocalHook<G>>,
                    (h, s, iterations),
                    out,
                )
            },
{
}

/// An explanation is the e-graph's own, and changes nothing of the runner but the e-graph.
pub proof fn law_explanations_come_from_the_egraph<G: EGraph, S, H>(
    runner: &mut RunnerLocal<G, S, H>,
    left: &G::Expr,
    right: &G::Expr,
    equal: G::Explanation,
    other: &mut RunnerLocal<G, S, H>,
    pattern: &G::Pattern,
    subst: &G::Subst,
    matched: G::Explanation,
)
    requires
        call_ensures(
            RunnerLocal::<G, S, H>::explain_equivalence,
            (runner, left, right),
            equal,
        ),
        call_ensures(
            RunnerLocal::<G, S, H>::explain_matches,
            (other, left, pattern, subst),
            matched,
        ),
    ensures
        exists|g: &mut G|
            *g == old(runner).egraph && *final(g) == final(runner).egraph
                && #[trigger] call_ensures(G::explain_equivalence, (g, left, right), equal),
        exists|g: &mut G|
            *g == old(other).egraph && *final(g) == final(other).egraph
                && #[trigger] call_ensures(
                G::explain_matches,
                (g, left, pattern, subst),
                matched,
            ),
        *final(runner) == (RunnerLocal { egraph: final(runner).egraph, ..*old(runner) }),
        *final(other) == (RunnerLocal { egraph: final(other).egraph, ..*old(other) }),
{
}

} // verus!
