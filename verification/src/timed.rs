//! The parts of an iteration whose time is recorded.
use vstd::prelude::*;

use crate::apply::{Applied, apply_matches, matches_applied};
use crate::egraph::{EGraph, Id, Rewrite, SearchMatches, rebuilds, rebuilt};
use crate::hook::{HookScope, LocalHook, hooks_run, run_hooks};
use crate::index_map::IndexMap;
use crate::limits::LocalRunnerLimits;
use crate::outcome::{Iteration, RunnerResult, StopReason};
use crate::runner::Extent;
use crate::scheduler::{LocalRewriteScheduler, searched, searches};
use crate::scope::{created, join_local, joins, new_ids};
use crate::time::{Duration, clock_reads, passes_since, read_clock, time_since};

verus! {

/// `span` is a reading of the time since a reading of the clock.
pub open spec fn takes(span: Duration) -> bool {
    exists|start: std::time::Instant| clock_reads(start) && #[trigger] passes_since(start, span)
}

/// The hooks are run where there is no reason to stop yet.
pub open spec fn hooks_part<G, H: LocalHook<G>>(
    checked: RunnerResult<()>,
    before: Seq<H>,
    scope: HookScope<G>,
    iterations: Vec<Iteration<()>>,
    after: Seq<H>,
    changed: HookScope<G>,
    res: RunnerResult<()>,
) -> bool {
    match checked {
        Ok(_) => hooks_run(before, scope, iterations, after, changed, res),
        Err(reason) => {
            &&& after == before
            &&& changed == scope
            &&& res == Err::<(), _>(reason)
        },
    }
}

/// Runs the hooks where there is no reason to stop yet, and takes the time of it.
pub fn timed_hooks<G, H: LocalHook<G>>(
    checked: RunnerResult<()>,
    hooks: Vec<H>,
    scope: HookScope<G>,
    iterations: &Vec<Iteration<()>>,
) -> (res: (Vec<H>, HookScope<G>, RunnerResult<()>, Duration))
    ensures
        hooks_part(checked, hooks@, scope, *iterations, res.0@, res.1, res.2),
        takes(res.3),
{
    let start = read_clock();
    let (hooks, scope, begun) = match checked {
        Ok(_) => run_hooks(hooks, scope, iterations),
        Err(reason) => (hooks, scope, Err(reason)),
    };
    (hooks, scope, begun, time_since(&start))
}

/// Running the hooks so may leave this and take the time `span`.
pub open spec fn hooks_take<G, H: LocalHook<G>>(
    checked: RunnerResult<()>,
    before: Vec<H>,
    scope: HookScope<G>,
    iterations: Vec<Iteration<()>>,
    after: Vec<H>,
    changed: HookScope<G>,
    res: RunnerResult<()>,
    span: Duration,
) -> bool {
    call_ensures(
        timed_hooks::<G, H>,
        (checked, before, scope, &iterations),
        (after, changed, res, span),
    )
}

/// The rules are searched from the scope where there is no reason to stop yet.
pub open spec fn search_part<G: EGraph, S: LocalRewriteScheduler<G>>(
    begun: RunnerResult<()>,
    before: S,
    iteration: usize,
    egraph: G,
    rules: Vec<Rewrite<G>>,
    local_scope: Vec<Id>,
    after: S,
    found: RunnerResult<Vec<Vec<SearchMatches<G::Subst>>>>,
) -> bool {
    match begun {
        Ok(_) => searches(before, iteration, egraph, rules, local_scope, after, found),
        Err(reason) => {
            &&& after == before
            &&& found == Err::<Vec<Vec<SearchMatches<G::Subst>>>, _>(reason)
        },
    }
}

/// Searches the rules from the scope where there is no reason to stop yet, and takes the
/// time of it. Returns also when it was started.
pub fn timed_search<G: EGraph, S: LocalRewriteScheduler<G>>(
    begun: RunnerResult<()>,
    scheduler: S,
    iteration: usize,
    egraph: &G,
    rules: &Vec<Rewrite<G>>,
    local_scope: &Vec<Id>,
) -> (res: (
    S,
    RunnerResult<Vec<Vec<SearchMatches<G::Subst>>>>,
    std::time::Instant,
    Duration,
))
    ensures
        search_part(begun, scheduler, iteration, *egraph, *rules, *local_scope, res.0, res.1),
        clock_reads(res.2),
        passes_since(res.2, res.3),
{
    let ghost before = scheduler;
    let start = read_clock();
    let (scheduler, found) = match begun {
        Ok(_) => searched(scheduler, iteration, egraph, rules, local_scope),
        Err(reason) => (scheduler, Err(reason)),
    };
    assert(search_part(
        begun,
        before,
        iteration,
        *egraph,
        *rules,
        *local_scope,
        scheduler,
        found,
    ));
    let span: Duration = time_since(&start);
    (scheduler, found, start, span)
}

/// Searching the rules so may leave this, start at `start` and take the time `span`.
pub open spec fn search_takes<G: EGraph, S: LocalRewriteScheduler<G>>(
    begun: RunnerResult<()>,
    before: S,
    iteration: usize,
    egraph: G,
    rules: Vec<Rewrite<G>>,
    local_scope: Vec<Id>,
    after: S,
    found: RunnerResult<Vec<Vec<SearchMatches<G::Subst>>>>,
    start: std::time::Instant,
    span: Duration,
) -> bool {
    call_ensures(
        timed_search::<G, S>,
        (begun, before, iteration, &egraph, &rules, &local_scope),
        (after, found, start, span),
    )
}

/// The rules are applied at what the search found, and the e-classes listed again.
pub open spec fn apply_part<G: EGraph, S: LocalRewriteScheduler<G>>(
    limits: LocalRunnerLimits,
    iteration: usize,
    rules: Seq<Rewrite<G>>,
    found: RunnerResult<Vec<Vec<SearchMatches<G::Subst>>>>,
    scheduler: S,
    egraph: G,
    after: Applied<G, S>,
    ids_after: Vec<Id>,
) -> bool {
    &&& match found {
        Ok(matches) => matches_applied(
            limits,
            iteration,
            rules,
            matches@,
            scheduler,
            egraph,
            after,
        ),
        Err(reason) => {
            &&& after.scheduler == scheduler
            &&& after.egraph == egraph
            &&& after.tally@.len() == 0
            &&& after.result == Err::<(), _>(reason)
        },
    }
    &&& call_ensures(G::class_ids, (&after.egraph,), ids_after)
}

/// Applies the rules at what the search found, picks the e-classes that were created, and
/// takes the time of it. Returns the e-classes after it and those that were created.
pub fn timed_apply<G: EGraph, S: LocalRewriteScheduler<G>>(
    limits: &LocalRunnerLimits,
    iteration: usize,
    rules: &Vec<Rewrite<G>>,
    found: RunnerResult<Vec<Vec<SearchMatches<G::Subst>>>>,
    scheduler: S,
    egraph: G,
    ids_before: &Vec<Id>,
) -> (res: (Applied<G, S>, Vec<Id>, Vec<Id>, Duration))
    requires
        limits.start_time is Some,
    ensures
        apply_part(*limits, iteration, rules@, found, scheduler, egraph, res.0, res.1),
        res.2@ == created(ids_before@, res.1@),
        takes(res.3),
{
    let start = read_clock();
    let after: Applied<G, S> = match found {
        Ok(matches) => apply_matches(limits, iteration, rules, matches, scheduler, egraph),
        Err(reason) => Applied { scheduler, egraph, tally: IndexMap::new(), result: Err(reason) },
    };
    let ids_after: Vec<Id> = after.egraph.class_ids();
    let new_local_ids: Vec<Id> = new_ids(ids_before, &ids_after);
    (after, ids_after, new_local_ids, time_since(&start))
}

/// Applying the rules so may leave this and take the time `span`.
pub open spec fn apply_takes<G: EGraph, S: LocalRewriteScheduler<G>>(
    limits: LocalRunnerLimits,
    iteration: usize,
    rules: Vec<Rewrite<G>>,
    found: RunnerResult<Vec<Vec<SearchMatches<G::Subst>>>>,
    scheduler: S,
    egraph: G,
    ids_before: Vec<Id>,
    after: Applied<G, S>,
    ids_after: Vec<Id>,
    new: Vec<Id>,
    span: Duration,
) -> bool {
    call_ensures(
        timed_apply::<G, S>,
        (&limits, iteration, &rules, found, scheduler, egraph, &ids_before),
        (after, ids_after, new, span),
    )
}

/// Rebuilds an e-graph, lets the e-classes of `new` join the scope, but for those that were
/// merged into one of `before` outside it, and takes the time of it.
pub fn timed_rebuild<G: EGraph>(
    egraph: G,
    local_scope: Vec<Id>,
    before: &Vec<Id>,
    new: &Vec<Id>,
) -> (res: (G, usize, Vec<Id>, Duration))
    ensures
        rebuilds(egraph, res.0, res.1),
        joins(res.0, local_scope@, before@, new@, res.2@),
        takes(res.3),
{
    let ghost first = egraph;
    let start = read_clock();
    let (egraph, n) = rebuilt(egraph);
    assert(rebuilds(first, egraph, n));
    let local_scope: Vec<Id> = join_local(&egraph, local_scope, before, new);
    (egraph, n, local_scope, time_since(&start))
}

/// Rebuilding and growing the scope so may leave this and take the time `span`.
pub open spec fn rebuild_takes<G: EGraph>(
    egraph: G,
    local_scope: Vec<Id>,
    before: Vec<Id>,
    new: Vec<Id>,
    after: G,
    n: usize,
    grown_scope: Vec<Id>,
    span: Duration,
) -> bool {
    call_ensures(
        timed_rebuild::<G>,
        (egraph, local_scope, &before, &new),
        (after, n, grown_scope, span),
    )
}

/// The times of the parts of an iteration.
pub struct PartTimes {
    pub hook: Duration,
    pub search: Duration,
    pub apply: Duration,
    pub rebuild: Duration,
}

/// Makes the record of an iteration. The total, which is the time since the search was
/// started, is taken last.
pub fn recorded(
    applied: IndexMap<usize>,
    start: Extent,
    times: PartTimes,
    n_rebuilds: usize,
    stop_reason: Option<StopReason>,
    search_start: &std::time::Instant,
) -> (it: Iteration<()>)
    ensures
        it == (Iteration {
            applied,
            egraph_nodes: start.nodes,
            egraph_classes: start.classes,
            hook_time: times.hook,
            search_time: times.search,
            apply_time: times.apply,
            rebuild_time: times.rebuild,
            total_time: it.total_time,
            n_rebuilds,
            data: (),
            stop_reason,
        }),
        passes_since(*search_start, it.total_time),
{
    Iteration {
        applied,
        egraph_nodes: start.nodes,
        egraph_classes: start.classes,
        hook_time: times.hook,
        search_time: times.search,
        apply_time: times.apply,
        rebuild_time: times.rebuild,
        total_time: time_since(search_start),
        n_rebuilds,
        data: (),
        stop_reason,
    }
}

/// An iteration that came to this may have the record `it`.
pub open spec fn records(
    applied: IndexMap<usize>,
    start: Extent,
    times: PartTimes,
    n_rebuilds: usize,
    stop_reason: Option<StopReason>,
    search_start: std::time::Instant,
    it: Iteration<()>,
) -> bool {
    call_ensures(
        recorded,
        (applied, start, times, n_rebuilds, stop_reason, &search_start),
        it,
    )
}

} // verus!
