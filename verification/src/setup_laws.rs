//! What holds of making a runner, setting it up and summarizing what it did.
use vstd::prelude::*;

use crate::backoff::{LocalBackoffScheduler, LocalRuleStats};
use crate::egraph::{EGraph, Id, adds};
use crate::hook::LocalHook;
use crate::index_map::IndexMap;
use crate::outcome::Iteration;
use crate::report::Report;
use crate::runner::RunnerLocal;
use crate::scheduler::LocalRewriteScheduler;
use crate::time::{Duration, clock_reads};

verus! {

/// A new runner has run nothing, holds an e-graph that the e-graph's own constructor made,
/// and may take 30 iterations, 10,000 e-nodes and 5 seconds.
pub proof fn law_new_runner_has_run_nothing<G: EGraph, H>(
    analysis: G::Analysis,
    runner: RunnerLocal<G, LocalBackoffScheduler, H>,
)
    requires
        call_ensures(RunnerLocal::<G, LocalBackoffScheduler, H>::new, (analysis,), runner),
    ensures
        call_ensures(G::new, (analysis,), runner.egraph),
        runner.iterations@.len() == 0,
        runner.roots@.len() == 0,
        runner.hooks@.len() == 0,
        runner.local_scope@.len() == 0,
        runner.stop_reason is None,
        runner.limits.start_time is None,
        runner.limits.iter_limit == 30,
        runner.limits.node_limit == 10_000,
        runner.limits.time_limit.nanos == 5 * 1_000_000_000,
        runner.scheduler@.default_match_limit == 1_000,
        runner.scheduler@.default_ban_length == 5,
        runner.scheduler@.stats.len() == 0,
{
}

/// A default runner is one that is made from the default analysis.
pub proof fn law_default_runner_is_new<G: EGraph, H>(
    runner: RunnerLocal<G, LocalBackoffScheduler, H>,
) where G::Analysis: Default
    requires
        call_ensures(
            <RunnerLocal<G, LocalBackoffScheduler, H> as Default>::default,
            (),
            runner,
        ),
    ensures
        exists|analysis: G::Analysis|
            call_ensures(<G::Analysis as Default>::default, (), analysis)
                && #[trigger] call_ensures(G::new, (analysis,), runner.egraph),
        runner.iterations@.len() == 0,
        runner.roots@.len() == 0,
        runner.hooks@.len() == 0,
        runner.local_scope@.len() == 0,
        runner.stop_reason is None,
        runner.limits.start_time is None,
        runner.limits.iter_limit == 30,
        runner.limits.node_limit == 10_000,
        runner.limits.time_limit.nanos == 5 * 1_000_000_000,
        runner.scheduler@.default_match_limit == 1_000,
        runner.scheduler@.default_ban_length == 5,
        runner.scheduler@.stats.len() == 0,
{
}

/// Each limit is set to what is given, whatever the others are, and nothing else changes.
pub proof fn law_limits_are_set_apart<G, S, H>(
    runner: RunnerLocal<G, S, H>,
    iter_limit: usize,
    node_limit: usize,
    time_limit: Duration,
    a: RunnerLocal<G, S, H>,
    b: RunnerLocal<G, S, H>,
    c: RunnerLocal<G, S, H>,
)
    requires
        call_ensures(RunnerLocal::<G, S, H>::with_iter_limit, (runner, iter_limit), a),
        call_ensures(RunnerLocal::<G, S, H>::with_node_limit, (a, node_limit), b),
        call_ensures(RunnerLocal::<G, S, H>::with_time_limit, (b, time_limit), c),
    ensures
        a.limits.iter_limit == iter_limit,
        a.limits.node_limit == runner.limits.node_limit,
        a.limits.time_limit == runner.limits.time_limit,
        b.limits.iter_limit == iter_limit,
        b.limits.node_limit == node_limit,
        b.limits.time_limit == runner.limits.time_limit,
        c.limits.iter_limit == iter_limit,
        c.limits.node_limit == node_limit,
        c.limits.time_limit == time_limit,
        c.limits.start_time == runner.limits.start_time,
        c.egraph == runner.egraph,
        c.iterations == runner.iterations,
        c.roots == runner.roots,
        c.stop_reason == runner.stop_reason,
        c.hooks == runner.hooks,
        c.scheduler == runner.scheduler,
        c.local_scope == runner.local_scope,
{
}

/// The scope is what was set last, in that order, and nothing else changes; replacing it
/// does the same.
pub proof fn law_scope_is_what_was_set<G, S, H>(
    runner: RunnerLocal<G, S, H>,
    scope: Vec<Id>,
    a: RunnerLocal<G, S, H>,
    other: &mut RunnerLocal<G, S, H>,
)
    requires
        call_ensures(RunnerLocal::<G, S, H>::with_local_scope, (runner, scope), a),
        call_ensures(RunnerLocal::<G, S, H>::set_local_scope, (other, scope), ()),
        *old(other) == runner,
    ensures
        a.local_scope == scope,
        a.egraph == runner.egraph,
        a.iterations == runner.iterations,
        a.roots == runner.roots,
        a.stop_reason == runner.stop_reason,
        a.hooks == runner.hooks,
        a.limits == runner.limits,
        a.scheduler == runner.scheduler,
        *final(other) == a,
{
}

/// Hooks are kept in the order in which they were added, and nothing else changes.
pub proof fn law_hooks_are_kept_in_order<G, S, H>(
    runner: RunnerLocal<G, S, H>,
    hook: H,
    a: RunnerLocal<G, S, H>,
)
    requires
        call_ensures(RunnerLocal::<G, S, H>::with_hook, (runner, hook), a),
    ensures
        a.hooks@.len() == runner.hooks@.len() + 1,
        forall|k: int| 0 <= k < runner.hooks@.len() ==> #[trigger] a.hooks@[k] == runner.hooks@[k],
        a.hooks@[runner.hooks@.len() as int] == hook,
        a.egraph == runner.egraph,
        a.iterations == runner.iterations,
        a.roots == runner.roots,
        a.stop_reason == runner.stop_reason,
        a.limits == runner.limits,
        a.scheduler == runner.scheduler,
        a.local_scope == runner.local_scope,
{
}

/// The scheduler and the e-graph are what was set last, and nothing else changes.
pub proof fn law_scheduler_and_egraph_are_what_was_set<G, S, H, T>(
    runner: RunnerLocal<G, S, H>,
    scheduler: T,
    egraph: G,
    a: RunnerLocal<G, T, H>,
    b: RunnerLocal<G, T, H>,
)
    requires
        call_ensures(RunnerLocal::<G, S, H>::with_scheduler::<T>, (runner, scheduler), a),
        call_ensures(RunnerLocal::<G, T, H>::with_egraph, (a, egraph), b),
    ensures
        a.scheduler == scheduler,
        a.egraph == runner.egraph,
        b.scheduler == scheduler,
        b.egraph == egraph,
        b.iterations == runner.iterations,
        b.roots == runner.roots,
        b.stop_reason == runner.stop_reason,
        b.hooks == runner.hooks,
        b.limits == runner.limits,
        b.local_scope == runner.local_scope,
{
}

/// An expression is added to the e-graph, its root joins the others at the end, and nothing
/// else changes.
pub proof fn law_expression_is_added_with_its_root<G: EGraph, S, H>(
    runner: RunnerLocal<G, S, H>,
    expr: &G::Expr,
    a: RunnerLocal<G, S, H>,
)
    requires
        call_ensures(RunnerLocal::<G, S, H>::with_expr, (runner, expr), a),
    ensures
        a.roots@.len() == runner.roots@.len() + 1,
        forall|k: int| 0 <= k < runner.roots@.len() ==> #[trigger] a.roots@[k] == runner.roots@[k],
        adds(runner.egraph, *expr, a.egraph, a.roots@[runner.roots@.len() as int]),
        a.iterations == runner.iterations,
        a.stop_reason == runner.stop_reason,
        a.hooks == runner.hooks,
        a.limits == runner.limits,
        a.scheduler == runner.scheduler,
        a.local_scope == runner.local_scope,
{
}

/// How explanations are made is the e-graph's own matter, and changes nothing else.
pub proof fn law_explanations_are_set_on_the_egraph<G: EGraph, S, H>(
    runner: RunnerLocal<G, S, H>,
    on: RunnerLocal<G, S, H>,
    off: RunnerLocal<G, S, H>,
    short: RunnerLocal<G, S, H>,
    long: RunnerLocal<G, S, H>,
)
    requires
        call_ensures(RunnerLocal::<G, S, H>::with_explanations_enabled, (runner,), on),
        call_ensures(RunnerLocal::<G, S, H>::with_explanations_disabled, (runner,), off),
        call_ensures(
            RunnerLocal::<G, S, H>::with_explanation_length_optimization,
            (runner,),
            short,
        ),
        call_ensures(
            RunnerLocal::<G, S, H>::without_explanation_length_optimization,
            (runner,),
            long,
        ),
    ensures
        call_ensures(G::with_explanations_enabled, (runner.egraph,), on.egraph),
        call_ensures(G::with_explanations_disabled, (runner.egraph,), off.egraph),
        call_ensures(G::with_explanation_length_optimization, (runner.egraph,), short.egraph),
        call_ensures(G::without_explanation_length_optimization, (runner.egraph,), long.egraph),
        on == (RunnerLocal { egraph: on.egraph, ..runner }),
        off == (RunnerLocal { egraph: off.egraph, ..runner }),
        short == (RunnerLocal { egraph: short.egraph, ..runner }),
        long == (RunnerLocal { egraph: long.egraph, ..runner }),
{
}

/// The clock of a run is started once: one that runs is left alone, and nothing else changes.
pub proof fn law_clock_is_started_once<G: EGraph, S: LocalRewriteScheduler<G>, H: LocalHook<G>>(
    runner: &mut RunnerLocal<G, S, H>,
)
    requires
        call_ensures(RunnerLocal::<G, S, H>::try_start, (runner,), ()),
    ensures
        old(runner).limits.start_time is Some ==> *final(runner) == *old(runner),
        final(runner).limits.start_time is Some,
        old(runner).limits.start_time is None ==> clock_reads(
            final(runner).limits.start_time->0,
        ),
        final(runner).limits.iter_limit == old(runner).limits.iter_limit,
        final(runner).limits.node_limit == old(runner).limits.node_limit,
        final(runner).limits.time_limit == old(runner).limits.time_limit,
        final(runner).egraph == old(runner).egraph,
        final(runner).iterations == old(runner).iterations,
        final(runner).roots == old(runner).roots,
        final(runner).stop_reason == old(runner).stop_reason,
        final(runner).hooks == old(runner).hooks,
        final(runner).scheduler == old(runner).scheduler,
        final(runner).local_scope == old(runner).local_scope,
{
}

/// A report names the reason and the number of iterations, and asks the e-graph for its
/// e-nodes, its e-classes and its size.
pub proof fn law_report_asks_the_egraph<G: EGraph, S, H>(
    runner: &RunnerLocal<G, S, H>,
    report: Report,
)
    requires
        call_ensures(RunnerLocal::<G, S, H>::report, (runner,), report),
    ensures
        runner.stop_reason == Some(report.stop_reason),
        report.iterations == runner.iterations@.len(),
        call_ensures(G::total_number_of_nodes, (&runner.egraph,), report.egraph_nodes),
        call_ensures(G::number_of_classes, (&runner.egraph,), report.egraph_classes),
        call_ensures(G::total_size, (&runner.egraph,), report.memo_size),
{
}

/// A run without iterations reports no time and no rebuilds, and one iteration more adds its
/// own to each of them, and to nothing else.
pub proof fn law_report_adds_up_iterations<G: EGraph, S, H>(
    runner: &RunnerLocal<G, S, H>,
    longer: &RunnerLocal<G, S, H>,
    it: Iteration<()>,
    report: Report,
    next: Report,
)
    requires
        call_ensures(RunnerLocal::<G, S, H>::report, (runner,), report),
        call_ensures(RunnerLocal::<G, S, H>::report, (longer,), next),
        longer.iterations@ == runner.iterations@.push(it),
    ensures
        runner.iterations@.len() == 0 ==> report.rebuilds == 0 && report.search_time.nanos == 0
            && report.apply_time.nanos == 0 && report.rebuild_time.nanos == 0
            && report.total_time.nanos == 0,
        next.iterations == report.iterations + 1,
        next.rebuilds == report.rebuilds + it.n_rebuilds,
        next.search_time.nanos == report.search_time.nanos + it.search_time.nanos,
        next.apply_time.nanos == report.apply_time.nanos + it.apply_time.nanos,
        next.rebuild_time.nanos == report.rebuild_time.nanos + it.rebuild_time.nanos,
        next.total_time.nanos == report.total_time.nanos + it.total_time.nanos,
{
    assert(longer.iterations@.drop_last() =~= runner.iterations@);
    assert(longer.iterations@.last() == it);
}

/// A second has a thousand million nanoseconds.
pub proof fn law_seconds_are_nanoseconds(
    secs: u64,
    a: Duration,
    nanos: u128,
    b: Duration,
    read: u128,
)
    requires
        call_ensures(Duration::from_secs, (secs,), a),
        call_ensures(Duration::from_nanos, (nanos,), b),
        call_ensures(Duration::as_nanos, (&b,), read),
    ensures
        a.nanos == secs * 1_000_000_000,
        b.nanos == nanos,
        read == nanos,
{
}

/// An e-class is identified by its index, and different indices are different e-classes.
pub proof fn law_index_identifies_a_class(i: usize, j: usize, a: Id, b: Id)
    requires
        call_ensures(<Id as From<usize>>::from, (i,), a),
        call_ensures(<Id as From<usize>>::from, (j,), b),
    ensures
        a.index == i,
        a == b <==> i == j,
{
}

/// All rules that the scheduler remembers can be read, in order.
pub proof fn law_all_rules_can_be_read(
    s: &LocalBackoffScheduler,
    stats: &IndexMap<LocalRuleStats>,
)
    requires
        call_ensures(LocalBackoffScheduler::all_stats, (s,), stats),
    ensures
        stats@.len() == s@.stats.len(),
        forall|k: int| 0 <= k < s@.stats.len() ==> #[trigger] stats@[k] == s@.stats[k],
{
}

} // verus!
