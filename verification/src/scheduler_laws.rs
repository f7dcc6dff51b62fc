//! What holds of searches with the two schedulers.
use vstd::prelude::*;

use crate::apply::{step_result, steps_of};
use crate::backoff::{BackoffView, LocalBackoffScheduler, LocalRuleStats};
use crate::backoff_laws::{
    law_first_ban_is_as_configured, law_match_limit_is_set_alone, law_rules_are_kept_apart,
    law_unlimited_rule_is_never_banned,
};
use crate::egraph::{EGraph, Id, Rewrite, SearchMatches, total_substs};
use crate::hook::LocalHook;
use crate::index_map::{find, lemma_find, lemma_find_is};
use crate::outcome::{Iteration, RunnerResult, StopReason};
use crate::runner::{RunnerLocal, iterates, trace_of};
use crate::runner_laws::law_saturation_means_nothing_was_applied;
use crate::scheduler::{LocalRewriteScheduler, LocalSimpleScheduler, asks, gathered, searches};

verus! {

/// The simple scheduler always lets a run stop.
pub proof fn law_simple_scheduler_lets_runs_stop(
    before: LocalSimpleScheduler,
    iteration: usize,
    after: LocalSimpleScheduler,
    stop: bool,
)
    requires
        asks(before, iteration, after, stop),
    ensures
        stop,
{
}

/// The back-off scheduler lets a run stop exactly when no rule is banned past the
/// iteration.
pub proof fn law_back_off_scheduler_waits_for_bans(
    before: LocalBackoffScheduler,
    iteration: usize,
    after: LocalBackoffScheduler,
    stop: bool,
)
    requires
        asks(before, iteration, after, stop),
    ensures
        stop <==> !before@.bans_any(iteration),
        stop ==> after@ == before@,
{
}

/// Along the searches of an iteration a rule that is banned stays as it is.
proof fn lemma_banned_rule_rests<G: EGraph>(
    states: Seq<&mut LocalBackoffScheduler>,
    outs: Seq<RunnerResult<Vec<SearchMatches<G::Subst>>>>,
    iteration: usize,
    egraph: &G,
    rewrites: &Vec<Rewrite<G>>,
    local_scope: &Vec<Id>,
    name: Seq<char>,
    k: int,
)
    requires
        forall|j: int|
            0 <= j < states.len() ==> call_ensures(
                <LocalBackoffScheduler as LocalRewriteScheduler<G>>::search_rewrite_local,
                (#[trigger] states[j], iteration, egraph, &rewrites@[j], local_scope),
                outs[j],
            ),
        forall|j: int| 0 < j < states.len() ==> *(#[trigger] states[j]) == *final(states[j - 1]),
        0 <= k < states.len(),
        iteration < (*states[0])@.stats_of(name).banned_until,
    ensures
        (*states[k])@.stats_of(name) == (*states[0])@.stats_of(name),
    decreases k,
{
    if k > 0 {
        lemma_banned_rule_rests(
            states,
            outs,
            iteration,
            egraph,
            rewrites,
            local_scope,
            name,
            k - 1,
        );
        let before = (*states[k - 1])@;
        let other = rewrites@[k - 1].name@;
        let after = (*final(states[k - 1]))@;
        assert(*states[k] == *final(states[k - 1]));
        if other == name {
            law_rules_are_kept_apart(before, name, before.stats_of(name), name);
        } else {
            let stats = choose|stats| after == #[trigger] before.with_stats(other, stats);
            law_rules_are_kept_apart(before, other, stats, name);
        }
    }
}

/// A search of all rules is made of single searches: what it finds for a rule comes from one
/// that finds the rule as it was before, where it is banned, and a reason to stop comes from
/// one too.
proof fn lemma_single_searches<G: EGraph>(
    before: LocalBackoffScheduler,
    iteration: usize,
    egraph: G,
    rewrites: Vec<Rewrite<G>>,
    local_scope: Vec<Id>,
    after: LocalBackoffScheduler,
    res: RunnerResult<Vec<Vec<SearchMatches<G::Subst>>>>,
)
    requires
        searches(before, iteration, egraph, rewrites, local_scope, after, res),
    ensures
        res matches Ok(found) ==> {
            &&& found@.len() == rewrites@.len()
            &&& forall|k: int|
                0 <= k < rewrites@.len() && iteration < before@.stats_of(
                    (#[trigger] rewrites@[k]).name@,
                ).banned_until ==> exists|s: &mut LocalBackoffScheduler|
                    {
                        &&& (*s)@.stats_of(rewrites@[k].name@) == before@.stats_of(
                            rewrites@[k].name@,
                        )
                        &&& #[trigger] call_ensures(
                            <LocalBackoffScheduler as LocalRewriteScheduler<
                                G,
                            >>::search_rewrite_local,
                            (s, iteration, &egraph, &rewrites@[k], &local_scope),
                            Ok(found@[k]),
                        )
                    }
        },
        res matches Err(reason) ==> exists|s: &mut LocalBackoffScheduler, k: int|
            #[trigger] call_ensures(
                <LocalBackoffScheduler as LocalRewriteScheduler<G>>::search_rewrite_local,
                (s, iteration, &egraph, &rewrites@[k], &local_scope),
                Err(reason),
            ),
{
    let s = choose|s: &mut LocalBackoffScheduler|
        *s == before && *final(s) == after && #[trigger] call_ensures(
            <LocalBackoffScheduler as LocalRewriteScheduler<G>>::search_rewrites_local,
            (s, iteration, &egraph, &rewrites, &local_scope),
            res,
        );
    let (states, outs) = choose|
        states: Seq<&mut LocalBackoffScheduler>,
        outs: Seq<RunnerResult<Vec<SearchMatches<G::Subst>>>>,
    |
        {
            &&& #[trigger] states.len() == outs.len()
            &&& #[trigger] gathered(outs, rewrites@.len(), res)
            &&& forall|j: int|
                0 <= j < states.len() ==> call_ensures(
                    <LocalBackoffScheduler as LocalRewriteScheduler<G>>::search_rewrite_local,
                    (#[trigger] states[j], iteration, &egraph, &rewrites@[j], &local_scope),
                    outs[j],
                )
            &&& forall|j: int|
                0 < j < states.len() ==> *(#[trigger] states[j]) == *final(states[j - 1])
            &&& states.len() > 0 ==> *states[0] == before
        };
    match res {
        Ok(found) => {
            assert forall|k: int|
                0 <= k < rewrites@.len() && iteration < before@.stats_of(
                    (#[trigger] rewrites@[k]).name@,
                ).banned_until implies exists|s: &mut LocalBackoffScheduler|
                {
                    &&& (*s)@.stats_of(rewrites@[k].name@) == before@.stats_of(
                        rewrites@[k].name@,
                    )
                    &&& #[trigger] call_ensures(
                        <LocalBackoffScheduler as LocalRewriteScheduler<
                            G,
                        >>::search_rewrite_local,
                        (s, iteration, &egraph, &rewrites@[k], &local_scope),
                        Ok(found@[k]),
                    )
                } by {
                lemma_banned_rule_rests(
                    states,
                    outs,
                    iteration,
                    &egraph,
                    &rewrites,
                    &local_scope,
                    rewrites@[k].name@,
                    k,
                );
                assert(outs[k] == Ok::<_, StopReason>(found@[k]));
                assert(states[k] == states[k]);
            }
        },
        Err(reason) => {
            let last = states.len() - 1;
            assert(outs[last] == Err::<Vec<SearchMatches<G::Subst>>, _>(reason));
            assert(states[last] == states[last]);
        },
    }
}

/// A rule that is banned past an iteration finds nothing in it.
pub proof fn law_banned_rule_finds_nothing<G: EGraph>(
    before: LocalBackoffScheduler,
    iteration: usize,
    egraph: G,
    rewrites: Vec<Rewrite<G>>,
    local_scope: Vec<Id>,
    after: LocalBackoffScheduler,
    found: Vec<Vec<SearchMatches<G::Subst>>>,
    k: int,
)
    requires
        searches(before, iteration, egraph, rewrites, local_scope, after, Ok(found)),
        0 <= k < rewrites@.len(),
        iteration < before@.stats_of(rewrites@[k].name@).banned_until,
    ensures
        found@.len() == rewrites@.len(),
        found@[k]@.len() == 0,
{
    lemma_single_searches(before, iteration, egraph, rewrites, local_scope, after, Ok(found));
}

/// The back-off scheduler gives no reason to stop in a search but an overflow.
proof fn lemma_search_stops_for_overflow<G: EGraph>(
    before: LocalBackoffScheduler,
    iteration: usize,
    egraph: G,
    rewrites: Vec<Rewrite<G>>,
    local_scope: Vec<Id>,
    after: LocalBackoffScheduler,
    reason: StopReason,
)
    requires
        searches(before, iteration, egraph, rewrites, local_scope, after, Err(reason)),
    ensures
        reason == StopReason::Overflow,
{
    lemma_single_searches(before, iteration, egraph, rewrites, local_scope, after, Err(reason));
}

/// With the back-off scheduler a run is not taken to be saturated while a rule is banned:
/// after an iteration that ends it so, no rule is banned past that iteration.
pub proof fn law_saturated_means_no_rule_is_banned<G: EGraph, H: LocalHook<G>>(
    runner: RunnerLocal<G, LocalBackoffScheduler, H>,
    rules: Vec<Rewrite<G>>,
    after: RunnerLocal<G, LocalBackoffScheduler, H>,
    it: Iteration<()>,
)
    requires
        iterates(runner, rules, after, it),
        it.stop_reason == Some(StopReason::Saturated),
    ensures
        !after.scheduler@.bans_any(runner.iterations@.len() as usize),
{
    let i = runner.iterations@.len() as usize;
    let t = trace_of(runner, rules, after, it);
    law_saturation_means_nothing_was_applied(runner, rules, after, it);
    if t.found is Err {
        assert(t.found->Err_0 == StopReason::Saturated);
        if t.begun is Ok {
            lemma_search_stops_for_overflow(
                runner.scheduler,
                i,
                t.hooked.egraph,
                rules,
                t.hooked.local_scope,
                t.scheduler,
                StopReason::Saturated,
            );
        }
    } else if t.applied.result is Err {
        let matches = t.found->Ok_0@;
        let steps = steps_of(
            t.limits,
            i,
            rules@,
            matches,
            t.scheduler,
            t.hooked.egraph,
            t.applied,
        );
        assert(step_result(t.limits, i, rules@, steps, steps.len() - 1) == t.applied.result);
    }
    law_back_off_scheduler_waits_for_bans(
        t.applied.scheduler,
        i,
        t.last_scheduler,
        t.can_stop,
    );
}

/// The simple scheduler's search depends on the e-graph, the rule and the scope alone:
/// where the e-graph has one answer to the unlimited search, two searches give the same
/// matches, whatever the iterations and whatever was searched before.
pub proof fn law_simple_search_has_no_memory<G: EGraph>(
    s: &mut LocalSimpleScheduler,
    t: &mut LocalSimpleScheduler,
    i: usize,
    j: usize,
    egraph: &G,
    rewrite: &Rewrite<G>,
    local_scope: &Vec<Id>,
    out: RunnerResult<Vec<SearchMatches<G::Subst>>>,
    again: RunnerResult<Vec<SearchMatches<G::Subst>>>,
)
    requires
        call_ensures(
            <LocalSimpleScheduler as LocalRewriteScheduler<G>>::search_rewrite_local,
            (s, i, egraph, rewrite, local_scope),
            out,
        ),
        call_ensures(
            <LocalSimpleScheduler as LocalRewriteScheduler<G>>::search_rewrite_local,
            (t, j, egraph, rewrite, local_scope),
            again,
        ),
        forall|a: Vec<SearchMatches<G::Subst>>, b: Vec<SearchMatches<G::Subst>>|
            #[trigger] call_ensures(
                G::search_local_with_limit,
                (egraph, &rewrite.rule, local_scope, usize::MAX),
                a,
            ) && #[trigger] call_ensures(
                G::search_local_with_limit,
                (egraph, &rewrite.rule, local_scope, usize::MAX),
                b,
            ) ==> a == b,
    ensures
        out is Ok,
        out == again,
{
}

/// The e-graph starts its searches in the scope alone: the e-class of each match stands for
/// the same as one of the scope.
pub open spec fn seeds_in_scope<G: EGraph>(egraph: G) -> bool {
    forall|
        rule: G::Rule,
        local_scope: Vec<Id>,
        limit: usize,
        found: Vec<SearchMatches<G::Subst>>,
        m: int,
    |
        #[trigger] call_ensures(
            G::search_local_with_limit,
            (&egraph, &rule, &local_scope, limit),
            found,
        ) && 0 <= m < found@.len() ==> is_seeded(
            egraph,
            local_scope@,
            (#[trigger] found@[m]).eclass,
        )
}

/// The e-class stands for the same as one of the scope.
pub open spec fn is_seeded<G: EGraph>(egraph: G, scope: Seq<Id>, eclass: Id) -> bool {
    exists|k: int, root: Id|
        0 <= k < scope.len() && #[trigger] call_ensures(G::find, (&egraph, scope[k]), root)
            && call_ensures(G::find, (&egraph, eclass), root)
}

/// On an e-graph that starts its searches in the scope alone, so does the simple scheduler:
/// each of its matches is in an e-class of the scope, and from an empty scope it has none.
pub proof fn law_simple_search_is_seeded_in_scope<G: EGraph>(
    s: &mut LocalSimpleScheduler,
    iteration: usize,
    egraph: &G,
    rewrite: &Rewrite<G>,
    local_scope: &Vec<Id>,
    out: RunnerResult<Vec<SearchMatches<G::Subst>>>,
)
    requires
        call_ensures(
            <LocalSimpleScheduler as LocalRewriteScheduler<G>>::search_rewrite_local,
            (s, iteration, egraph, rewrite, local_scope),
            out,
        ),
        seeds_in_scope(*egraph),
    ensures
        out matches Ok(found) && {
            &&& forall|m: int|
                0 <= m < found@.len() ==> is_seeded(
                    *egraph,
                    local_scope@,
                    (#[trigger] found@[m]).eclass,
                )
            &&& local_scope@.len() == 0 ==> found@.len() == 0
        },
{
    let found = out->Ok_0;
    if local_scope@.len() == 0 && found@.len() > 0 {
        assert(is_seeded(*egraph, local_scope@, found@[0].eclass));
    }
}

/// On an e-graph that starts its searches in the scope alone, so does the back-off scheduler.
pub proof fn law_back_off_search_is_seeded_in_scope<G: EGraph>(
    s: &mut LocalBackoffScheduler,
    iteration: usize,
    egraph: &G,
    rewrite: &Rewrite<G>,
    local_scope: &Vec<Id>,
    found: Vec<SearchMatches<G::Subst>>,
)
    requires
        call_ensures(
            <LocalBackoffScheduler as LocalRewriteScheduler<G>>::search_rewrite_local,
            (s, iteration, egraph, rewrite, local_scope),
            Ok(found),
        ),
        seeds_in_scope(*egraph),
    ensures
        forall|m: int|
            0 <= m < found@.len() ==> is_seeded(
                *egraph,
                local_scope@,
                (#[trigger] found@[m]).eclass,
            ),
        local_scope@.len() == 0 ==> found@.len() == 0,
{
    if local_scope@.len() == 0 && found@.len() > 0 {
        assert(is_seeded(*egraph, local_scope@, found@[0].eclass));
    }
}

/// A rule has no match limit and was never banned.
pub open spec fn is_unlimited(stats: LocalRuleStats) -> bool {
    &&& stats.match_limit == usize::MAX
    &&& stats.times_banned == 0
    &&& stats.banned_until == 0
}

/// Nothing happened to the scheduler in between, but for a question whether to stop.
pub open spec fn at_most_asked(
    before: LocalBackoffScheduler,
    after: LocalBackoffScheduler,
) -> bool {
    ||| after == before
    ||| exists|iteration: usize, stop: bool| asks(before, iteration, after, stop)
}

/// Asking whether to stop changes nothing of a rule that is not banned.
proof fn lemma_asking_keeps_unlimited(
    before: LocalBackoffScheduler,
    after: LocalBackoffScheduler,
    name: Seq<char>,
)
    requires
        at_most_asked(before, after),
        is_unlimited(before@.stats_of(name)),
    ensures
        after@.stats_of(name) == before@.stats_of(name),
{
    if after != before {
        let (iteration, stop) = choose|iteration: usize, stop: bool|
            asks(before, iteration, after, stop);
        if !stop {
            let soonest = choose|soonest: usize|
                #[trigger] before@.ends_soonest(iteration, soonest) && after@
                    == before@.fast_forwarded(iteration, soonest);
            let at = find(before@.stats, name);
            lemma_find(before@.stats, name);
            assert forall|i: int| 0 <= i < at implies (#[trigger] after@.stats[i]).0 != name by {
                assert(before@.stats[i].0 != name);
            }
            lemma_find_is(after@.stats, name, at);
        }
    }
}

/// A rule without a match limit that was never banned stays such a rule over any number of
/// searches of any rules, also where it is asked in between whether to stop. Each search of
/// it whose matches a machine word counts returns what the simple scheduler's would: all
/// that the unlimited search from the scope finds.
pub proof fn law_unlimited_rule_is_searched_simply<G: EGraph>(
    states: Seq<&mut LocalBackoffScheduler>,
    iterations: Seq<usize>,
    egraphs: Seq<G>,
    rewrites: Seq<Rewrite<G>>,
    scopes: Seq<Vec<Id>>,
    outs: Seq<RunnerResult<Vec<SearchMatches<G::Subst>>>>,
    name: Seq<char>,
    k: int,
)
    requires
        forall|j: int|
            0 <= j < states.len() ==> call_ensures(
                <LocalBackoffScheduler as LocalRewriteScheduler<G>>::search_rewrite_local,
                (#[trigger] states[j], iterations[j], &egraphs[j], &rewrites[j], &scopes[j]),
                outs[j],
            ),
        forall|j: int|
            0 < j < states.len() ==> at_most_asked(
                *final(states[j - 1]),
                *(#[trigger] states[j]),
            ),
        forall|j: int, found: Vec<SearchMatches<G::Subst>>|
            0 <= j < states.len() && rewrites[j].name@ == name && #[trigger] call_ensures(
                G::search_local_with_limit,
                (&egraphs[j], &rewrites[j].rule, &scopes[j], usize::MAX),
                found,
            ) ==> total_substs(found@) <= usize::MAX,
        0 <= k < states.len(),
        is_unlimited((*states[0])@.stats_of(name)),
        (*states[0])@.stats_of(name).times_applied + states.len() <= usize::MAX,
    ensures
        is_unlimited((*states[k])@.stats_of(name)),
        is_unlimited((*final(states[k]))@.stats_of(name)),
        (*final(states[k]))@.stats_of(name).times_applied <= (
        *states[0])@.stats_of(name).times_applied + k + 1,
        rewrites[k].name@ == name ==> (outs[k] matches Ok(found) && call_ensures(
            G::search_local_with_limit,
            (&egraphs[k], &rewrites[k].rule, &scopes[k], usize::MAX),
            found,
        )),
    decreases k,
{
    if k > 0 {
        law_unlimited_rule_is_searched_simply(
            states,
            iterations,
            egraphs,
            rewrites,
            scopes,
            outs,
            name,
            k - 1,
        );
        assert(at_most_asked(*final(states[k - 1]), *states[k]));
        lemma_asking_keeps_unlimited(*final(states[k - 1]), *states[k], name);
    }
    let before = (*states[k])@;
    let after = (*final(states[k]))@;
    let other = rewrites[k].name@;
    let stats = before.stats_of(name);
    assert(call_ensures(
        <LocalBackoffScheduler as LocalRewriteScheduler<G>>::search_rewrite_local,
        (states[k], iterations[k], &egraphs[k], &rewrites[k], &scopes[k]),
        outs[k],
    ));
    if other == name {
        law_first_ban_is_as_configured(stats);
        let (found, next) = choose|
            found: Vec<SearchMatches<G::Subst>>,
            next: LocalRuleStats,
        |
            {
                &&& call_ensures(
                    G::search_local_with_limit,
                    (
                        &egraphs[k],
                        &rewrites[k].rule,
                        &scopes[k],
                        stats.spec_threshold().saturating_add(1),
                    ),
                    found,
                )
                &&& #[trigger] stats.judges(iterations[k], found, next, outs[k])
                &&& after == before.with_stats(name, next)
            };
        law_unlimited_rule_is_never_banned(stats, iterations[k], total_substs(found@));
        law_rules_are_kept_apart(before, name, next, name);
    } else {
        let next = choose|next| after == #[trigger] before.with_stats(other, next);
        law_rules_are_kept_apart(before, other, next, name);
    }
}

/// Not banning a rule that was never banned makes it such a rule.
pub proof fn law_rule_that_must_not_be_banned_is_unlimited(
    scheduler: BackoffView,
    name: Seq<char>,
)
    requires
        scheduler.stats_of(name).times_banned == 0,
        scheduler.stats_of(name).banned_until == 0,
    ensures
        is_unlimited(scheduler.with_match_limit(name, usize::MAX).stats_of(name)),
{
    law_match_limit_is_set_alone(scheduler, name, usize::MAX, name);
}

} // verus!
