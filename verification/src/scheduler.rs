//! Schedulers: which rules are searched in an iteration and what becomes of the
//! matches.
use vstd::prelude::*;

use crate::egraph::{EGraph, Id, Rewrite, SearchMatches};
use crate::outcome::{RunnerResult, StopReason};

verus! {

/// The result of searching `count` rules one after the other, made of what the
/// single searches returned: all of their matches, or the first reason to stop.
pub open spec fn gathered<T>(
    outs: Seq<RunnerResult<Vec<SearchMatches<T>>>>,
    count: nat,
    res: RunnerResult<Vec<Vec<SearchMatches<T>>>>,
) -> bool {
    match res {
        Ok(found) => {
            &&& outs.len() == count
            &&& found@.len() == count
            &&& forall|k: int|
                0 <= k < count ==> #[trigger] outs[k] == Ok::<_, StopReason>(found@[k])
        },
        Err(reason) => {
            &&& 0 < outs.len() <= count
            &&& outs.last() == Err::<Vec<SearchMatches<T>>, _>(reason)
            &&& forall|k: int| 0 <= k < outs.len() - 1 ==> #[trigger] outs[k] is Ok
        },
    }
}

/// Whether a scheduler lets a run end as saturated.
pub trait LocalStopPolicy: Sized {
    /// Whether the run may stop after an iteration in which nothing was applied.
    fn can_stop(&mut self, iteration: usize) -> (stop: bool)
        default_ensures
            stop,
            *final(self) == *old(self),
    {
        true
    }
}

/// A scheduler for rewrites that are searched from a local scope.
pub trait LocalRewriteScheduler<G: EGraph>: LocalStopPolicy {
    /// Searches one rule. It may leave matches out; it gives a reason to stop where
    /// its own bookkeeping would overflow.
    fn search_rewrite_local(
        &mut self,
        iteration: usize,
        egraph: &G,
        rewrite: &Rewrite<G>,
        local_scope: &Vec<Id>,
    ) -> RunnerResult<Vec<SearchMatches<G::Subst>>>;

    /// Searches all rules. By default each is searched on its own, in order, up to
    /// the first that gives a reason to stop.
    fn search_rewrites_local(
        &mut self,
        iteration: usize,
        egraph: &G,
        rewrites: &Vec<Rewrite<G>>,
        local_scope: &Vec<Id>,
    ) -> (res: RunnerResult<Vec<Vec<SearchMatches<G::Subst>>>>)
        default_ensures
            exists|s: Seq<&mut Self>, outs: Seq<RunnerResult<Vec<SearchMatches<G::Subst>>>>|
                {
                    &&& #[trigger] s.len() == outs.len()
                    &&& #[trigger] gathered(outs, rewrites@.len(), res)
                    &&& forall|k: int|
                        0 <= k < s.len() ==> call_ensures(
                            <Self as LocalRewriteScheduler<G>>::search_rewrite_local,
                            (#[trigger] s[k], iteration, egraph, &rewrites@[k], local_scope),
                            outs[k],
                        )
                    &&& forall|k: int| 0 < k < s.len() ==> *(#[trigger] s[k]) == *final(s[k - 1])
                    &&& s.len() > 0 ==> *s[0] == *old(self) && *final(s.last()) == *final(self)
                    &&& s.len() == 0 ==> *final(self) == *old(self)
                },
    {
        let mut found: Vec<Vec<SearchMatches<G::Subst>>> = Vec::new();
        let mut i: usize = 0;
        let ghost start = *self;
        proof {
            let s = Seq::<&mut Self>::empty();
            let outs = Seq::<RunnerResult<Vec<SearchMatches<G::Subst>>>>::empty();
            assert(s.len() == outs.len());
            assert(gathered(outs, i as nat, Ok(found)));
        }
        while i < rewrites.len()
            invariant
                i <= rewrites@.len(),
                start == *old(self),
                exists|s: Seq<&mut Self>, outs: Seq<RunnerResult<Vec<SearchMatches<G::Subst>>>>|
                    {
                        &&& #[trigger] s.len() == outs.len()
                        &&& #[trigger] gathered(outs, i as nat, Ok(found))
                        &&& forall|k: int|
                            0 <= k < s.len() ==> call_ensures(
                                <Self as LocalRewriteScheduler<G>>::search_rewrite_local,
                                (#[trigger] s[k], iteration, egraph, &rewrites@[k], local_scope),
                                outs[k],
                            )
                        &&& forall|k: int|
                            0 < k < s.len() ==> *(#[trigger] s[k]) == *final(s[k - 1])
                        &&& s.len() > 0 ==> *s[0] == start && *final(s.last()) == *self
                        &&& s.len() == 0 ==> *self == start
                    },
            decreases rewrites@.len() - i,
        {
            let ghost before = *self;
            let ghost sofar = found;
            let out = self.search_rewrite_local(iteration, egraph, &rewrites[i], local_scope);
            let ghost searched = out;
            let stop: Option<StopReason> = match out {
                Ok(matches) => {
                    found.push(matches);
                    None
                },
                Err(reason) => Some(reason),
            };
            proof {
                let (s, outs) = choose|
                    s: Seq<&mut Self>,
                    outs: Seq<RunnerResult<Vec<SearchMatches<G::Subst>>>>,
                |
                    {
                        &&& #[trigger] s.len() == outs.len()
                        &&& #[trigger] gathered(outs, i as nat, Ok(sofar))
                        &&& forall|k: int|
                            0 <= k < s.len() ==> call_ensures(
                                <Self as LocalRewriteScheduler<G>>::search_rewrite_local,
                                (#[trigger] s[k], iteration, egraph, &rewrites@[k], local_scope),
                                outs[k],
                            )
                        &&& forall|k: int|
                            0 < k < s.len() ==> *(#[trigger] s[k]) == *final(s[k - 1])
                        &&& s.len() > 0 ==> *s[0] == start && *final(s.last()) == before
                        &&& s.len() == 0 ==> before == start
                    };
                let here = choose|here: &mut Self|
                    *here == before && *final(here) == *self && #[trigger] call_ensures(
                        <Self as LocalRewriteScheduler<G>>::search_rewrite_local,
                        (here, iteration, egraph, &rewrites@[i as int], local_scope),
                        searched,
                    );
                let s2 = s.push(here);
                let outs2 = outs.push(searched);
                assert(s2.len() == outs2.len());
                if searched is Ok {
                    assert(gathered(outs2, (i + 1) as nat, Ok(found)));
                } else {
                    assert(gathered(outs2, rewrites@.len(), Err(searched->Err_0)));
                }
            }
            match stop {
                Some(reason) => {
                    return Err(reason);
                },
                None => {},
            }
            i = i + 1;
        }
        Ok(found)
    }

    /// Applies a rule at its matches and returns how often it was applied. By default
    /// that is the number of e-classes that [`EGraph::apply_rule`] reports.
    fn apply_rewrite(
        &mut self,
        iteration: usize,
        egraph: &mut G,
        rewrite: &Rewrite<G>,
        matches: Vec<SearchMatches<G::Subst>>,
    ) -> (n: usize)
        default_ensures
            *final(self) == *old(self),
            exists|g: &mut G, changed: Vec<Id>|
                {
                    &&& *g == *old(egraph)
                    &&& *final(g) == *final(egraph)
                    &&& #[trigger] call_ensures(
                        G::apply_rule,
                        (g, &rewrite.rule, &matches),
                        changed,
                    )
                    &&& n == changed@.len()
                },
    {
        let changed: Vec<Id> = egraph.apply_rule(&rewrite.rule, &matches);
        changed.len()
    }
}

/// Calls [`LocalStopPolicy::can_stop`].
fn stop_in_place<S: LocalStopPolicy>(scheduler: &mut S, iteration: usize) -> (stop: bool)
    ensures
        exists|s: &mut S|
            *s == *old(scheduler) && *final(s) == *final(scheduler) && #[trigger] call_ensures(
                S::can_stop,
                (s, iteration),
                stop,
            ),
{
    scheduler.can_stop(iteration)
}

/// Asks a scheduler whether the run may stop: calls [`LocalStopPolicy::can_stop`] on
/// it and hands it back.
pub fn asked<S: LocalStopPolicy>(scheduler: S, iteration: usize) -> (res: (S, bool))
    ensures
        exists|s: &mut S|
            *s == scheduler && *final(s) == res.0 && #[trigger] call_ensures(
                S::can_stop,
                (s, iteration),
                res.1,
            ),
{
    let mut scheduler = scheduler;
    let stop: bool = stop_in_place(&mut scheduler, iteration);
    let res = (scheduler, stop);
    assert(res.0 == scheduler && res.1 == stop);
    res
}

/// [`LocalStopPolicy::can_stop`] on `before` may leave `after` and return `stop`.
pub open spec fn asks<S: LocalStopPolicy>(
    before: S,
    iteration: usize,
    after: S,
    stop: bool,
) -> bool {
    call_ensures(asked::<S>, (before, iteration), (after, stop))
}

/// Calls [`LocalRewriteScheduler::search_rewrites_local`].
fn search_in_place<G: EGraph, S: LocalRewriteScheduler<G>>(
    scheduler: &mut S,
    iteration: usize,
    egraph: &G,
    rewrites: &Vec<Rewrite<G>>,
    local_scope: &Vec<Id>,
) -> (found: RunnerResult<Vec<Vec<SearchMatches<G::Subst>>>>)
    ensures
        exists|s: &mut S|
            *s == *old(scheduler) && *final(s) == *final(scheduler) && #[trigger] call_ensures(
                <S as LocalRewriteScheduler<G>>::search_rewrites_local,
                (s, iteration, egraph, rewrites, local_scope),
                found,
            ),
{
    scheduler.search_rewrites_local(iteration, egraph, rewrites, local_scope)
}

/// Lets a scheduler search: calls [`LocalRewriteScheduler::search_rewrites_local`] on
/// it and hands it back.
pub fn searched<G: EGraph, S: LocalRewriteScheduler<G>>(
    scheduler: S,
    iteration: usize,
    egraph: &G,
    rewrites: &Vec<Rewrite<G>>,
    local_scope: &Vec<Id>,
) -> (res: (S, RunnerResult<Vec<Vec<SearchMatches<G::Subst>>>>))
    ensures
        exists|s: &mut S|
            *s == scheduler && *final(s) == res.0 && #[trigger] call_ensures(
                <S as LocalRewriteScheduler<G>>::search_rewrites_local,
                (s, iteration, egraph, rewrites, local_scope),
                res.1,
            ),
{
    let mut scheduler = scheduler;
    let found = search_in_place(&mut scheduler, iteration, egraph, rewrites, local_scope);
    let res = (scheduler, found);
    assert(res.0 == scheduler && res.1 == found);
    res
}

/// [`LocalRewriteScheduler::search_rewrites_local`] on `before`, with the rules and the
/// scope that are given, may leave `after` and return `found`.
pub open spec fn searches<G: EGraph, S: LocalRewriteScheduler<G>>(
    before: S,
    iteration: usize,
    egraph: G,
    rewrites: Vec<Rewrite<G>>,
    local_scope: Vec<Id>,
    after: S,
    found: RunnerResult<Vec<Vec<SearchMatches<G::Subst>>>>,
) -> bool {
    call_ensures(
        searched::<G, S>,
        (before, iteration, &egraph, &rewrites, &local_scope),
        (after, found),
    )
}

/// Calls [`LocalRewriteScheduler::apply_rewrite`].
fn apply_in_place<G: EGraph, S: LocalRewriteScheduler<G>>(
    scheduler: &mut S,
    iteration: usize,
    egraph: &mut G,
    rewrite: &Rewrite<G>,
    matches: Vec<SearchMatches<G::Subst>>,
) -> (n: usize)
    ensures
        exists|s: &mut S, g: &mut G|
            {
                &&& *s == *old(scheduler)
                &&& *final(s) == *final(scheduler)
                &&& *g == *old(egraph)
                &&& *final(g) == *final(egraph)
                &&& #[trigger] call_ensures(
                    <S as LocalRewriteScheduler<G>>::apply_rewrite,
                    (s, iteration, g, rewrite, matches),
                    n,
                )
            },
{
    scheduler.apply_rewrite(iteration, egraph, rewrite, matches)
}

/// Lets a scheduler apply a rule: calls [`LocalRewriteScheduler::apply_rewrite`] on it
/// and on the e-graph, and hands both back.
pub fn applied<G: EGraph, S: LocalRewriteScheduler<G>>(
    scheduler: S,
    iteration: usize,
    egraph: G,
    rewrite: &Rewrite<G>,
    matches: Vec<SearchMatches<G::Subst>>,
) -> (res: (S, G, usize))
    ensures
        exists|s: &mut S, g: &mut G|
            {
                &&& *s == scheduler
                &&& *final(s) == res.0
                &&& *g == egraph
                &&& *final(g) == res.1
                &&& #[trigger] call_ensures(
                    <S as LocalRewriteScheduler<G>>::apply_rewrite,
                    (s, iteration, g, rewrite, matches),
                    res.2,
                )
            },
{
    let mut scheduler = scheduler;
    let mut egraph = egraph;
    let n: usize = apply_in_place(&mut scheduler, iteration, &mut egraph, rewrite, matches);
    let res = (scheduler, egraph, n);
    assert(res.0 == scheduler && res.1 == egraph && res.2 == n);
    res
}

/// [`LocalRewriteScheduler::apply_rewrite`] on `before` and `egraph`, with the rule and
/// the matches that are given, may leave `after` and `changed` and return `n`.
pub open spec fn applies<G: EGraph, S: LocalRewriteScheduler<G>>(
    before: S,
    iteration: usize,
    egraph: G,
    rewrite: Rewrite<G>,
    matches: Vec<SearchMatches<G::Subst>>,
    after: S,
    changed: G,
    n: usize,
) -> bool {
    call_ensures(
        applied::<G, S>,
        (before, iteration, egraph, &rewrite, matches),
        (after, changed, n),
    )
}

/// A scheduler that searches every rule in every iteration, without a limit.
#[derive(Debug)]
pub struct LocalSimpleScheduler;

impl LocalStopPolicy for LocalSimpleScheduler {

}

impl<G: EGraph> LocalRewriteScheduler<G> for LocalSimpleScheduler {
    fn search_rewrite_local(
        &mut self,
        _iteration: usize,
        egraph: &G,
        rewrite: &Rewrite<G>,
        local_scope: &Vec<Id>,
    ) -> (out: RunnerResult<Vec<SearchMatches<G::Subst>>>)
        ensures
            *final(self) == *old(self),
            out matches Ok(found) && call_ensures(
                G::search_local_with_limit,
                (egraph, &rewrite.rule, local_scope, usize::MAX),
                found,
            ),
    {
        Ok(egraph.search_local_with_limit(&rewrite.rule, local_scope, usize::MAX))
    }
}

} // verus!
