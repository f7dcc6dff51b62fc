//! The runner.
use vstd::prelude::*;

use crate::apply::Applied;
use crate::backoff::LocalBackoffScheduler;
use crate::egraph::{EGraph, Id, Rewrite, SearchMatches, rebuilds, rebuilt};
use crate::hook::{HookScope, LocalHook};
use crate::limits::{LimitReading, LocalRunnerLimits, reads};
use crate::outcome::{Iteration, RunnerResult, StopReason};
use crate::scheduler::{LocalRewriteScheduler, asked, asks};
use crate::scope::{ScopeRoots, created, grown, joined};
use crate::time::{clock_reads, read_clock};
use crate::timed::{
    PartTimes, apply_part, apply_takes, hooks_part, hooks_take, rebuild_takes, recorded, records,
    search_part, search_takes, timed_apply, timed_hooks, timed_rebuild, timed_search,
};

verus! {

/// A local equality-saturation runner.
///
/// Each rewrite is searched only from the e-classes of `local_scope`. E-classes that
/// rewrites create join the scope for the next iteration, unless they are merged into an
/// existing e-class outside it.
pub struct RunnerLocal<G, S = LocalBackoffScheduler, H = Box<dyn LocalHook<G>>> {
    /// The e-graph.
    pub egraph: G,
    /// What each iteration did.
    pub iterations: Vec<Iteration<()>>,
    /// The roots of the expressions that were added.
    pub roots: Vec<Id>,
    /// Why the runner stopped, if it has.
    pub stop_reason: Option<StopReason>,
    /// What is run at the start of each iteration.
    pub hooks: Vec<H>,
    /// How far the run may go.
    pub limits: LocalRunnerLimits,
    /// Which rules are searched.
    pub scheduler: S,
    /// The e-classes from which rewrites are searched.
    pub local_scope: Vec<Id>,
}

/// What an iteration met on its way: what it was told by the clock, the e-graph, the
/// hooks and the scheduler, and the states in between.
pub struct IterationTrace<G: EGraph, S, H> {
    /// The limits, with the run started.
    pub limits: LocalRunnerLimits,
    /// What the limits were held against at the start.
    pub reading: LimitReading,
    /// The extent of the e-graph at the start.
    pub start: Extent,
    /// The hooks, after they were run.
    pub hooks: Vec<H>,
    /// The e-graph, the roots and the scope, after the hooks.
    pub hooked: HookScope<G>,
    /// Whether the iteration goes on after the limits and the hooks.
    pub begun: RunnerResult<()>,
    /// The extent of the e-graph after the hooks.
    pub hooked_extent: Extent,
    /// The scheduler after the search.
    pub scheduler: S,
    /// What the search found.
    pub found: RunnerResult<Vec<Vec<SearchMatches<G::Subst>>>>,
    /// The e-classes before the matches were applied.
    pub ids_before: Vec<Id>,
    /// The state after the matches were applied.
    pub applied: Applied<G, S>,
    /// The e-classes after the matches were applied.
    pub ids_after: Vec<Id>,
    /// The e-classes that were created in between.
    pub new_ids: Vec<Id>,
    /// The e-graph after rebuilding.
    pub egraph: G,
    /// What rebuilding returned.
    pub n_rebuilds: usize,
    /// What stands for the e-classes by which the scope grows, after rebuilding.
    pub roots: ScopeRoots,
    /// The scheduler at the end.
    pub last_scheduler: S,
    /// Whether the scheduler lets the run stop.
    pub can_stop: bool,
    /// The extent of the e-graph at the end.
    pub end: Extent,
    /// When the search was started.
    pub search_start: std::time::Instant,
}

/// The size of an e-graph and the number of its e-classes.
#[derive(Clone, Copy, Debug, PartialEq, Eq, Structural)]
pub struct Extent {
    pub nodes: usize,
    pub classes: usize,
}

/// Why a run stops with an iteration, if it does: for a reason that came up on the way,
/// or as saturated, where nothing was applied, the scheduler lets the run stop, and the
/// e-graph has the same extent at the start, after the hooks and at the end.
pub open spec fn conclusion(
    result: RunnerResult<()>,
    nothing_applied: bool,
    can_stop: bool,
    start: Extent,
    hooked: Extent,
    end: Extent,
) -> Option<StopReason> {
    match result {
        Err(reason) => Some(reason),
        Ok(_) => if nothing_applied && can_stop && start == hooked && start == end {
            Some(StopReason::Saturated)
        } else {
            None
        },
    }
}

/// Decides whether a run stops with an iteration.
pub fn conclude(
    result: RunnerResult<()>,
    nothing_applied: bool,
    can_stop: bool,
    start: Extent,
    hooked: Extent,
    end: Extent,
) -> (reason: Option<StopReason>)
    ensures
        reason == conclusion(result, nothing_applied, can_stop, start, hooked, end),
{
    match result {
        Err(reason) => Some(reason),
        Ok(_) => if nothing_applied && can_stop && start == hooked && start == end {
            Some(StopReason::Saturated)
        } else {
            None
        },
    }
}

/// This is the extent of the e-graph.
pub open spec fn extends_to<G: EGraph>(egraph: G, extent: Extent) -> bool {
    &&& call_ensures(G::total_size, (&egraph,), extent.nodes)
    &&& call_ensures(G::number_of_classes, (&egraph,), extent.classes)
}

/// Measures an e-graph.
pub fn measure<G: EGraph>(egraph: &G) -> (extent: Extent)
    ensures
        extends_to(*egraph, extent),
{
    Extent { nodes: egraph.total_size(), classes: egraph.number_of_classes() }
}

impl<G: EGraph, S: LocalRewriteScheduler<G>, H: LocalHook<G>> IterationTrace<G, S, H> {
    /// The start of an iteration of `runner`: the limits are checked, and the hooks run
    /// where none was passed.
    pub open spec fn begins(self, runner: RunnerLocal<G, S, H>) -> bool {
        let i = runner.iterations@.len() as usize;
        &&& self.limits == (LocalRunnerLimits {
            start_time: self.limits.start_time,
            ..runner.limits
        })
        &&& self.limits.start_time is Some
        &&& runner.limits.start_time is Some ==> self.limits == runner.limits
        &&& runner.limits.start_time is None ==> clock_reads(self.limits.start_time->0)
        &&& reads(self.limits, runner.egraph, self.reading)
        &&& extends_to(runner.egraph, self.start)
        &&& hooks_part(
            self.limits.verdict(i, self.reading),
            runner.hooks@,
            runner.hook_scope(),
            runner.iterations,
            self.hooks@,
            self.hooked,
            self.begun,
        )
        &&& extends_to(self.hooked.egraph, self.hooked_extent)
    }

    /// The middle of the iteration: where it goes on, the rules are searched from the
    /// scope and applied at what was found.
    pub open spec fn rewrites(
        self,
        runner: RunnerLocal<G, S, H>,
        rules: Vec<Rewrite<G>>,
    ) -> bool {
        let i = runner.iterations@.len() as usize;
        &&& search_part(
            self.begun,
            runner.scheduler,
            i,
            self.hooked.egraph,
            rules,
            self.hooked.local_scope,
            self.scheduler,
            self.found,
        )
        &&& call_ensures(G::class_ids, (&self.hooked.egraph,), self.ids_before)
        &&& apply_part(
            self.limits,
            i,
            rules@,
            self.found,
            self.scheduler,
            self.hooked.egraph,
            self.applied,
            self.ids_after,
        )
        &&& self.new_ids@ == created(self.ids_before@, self.ids_after@)
    }

    /// The end of the iteration: the e-graph is rebuilt, and the scheduler asked whether
    /// the run may stop where nothing was applied.
    pub open spec fn closes(self, runner: RunnerLocal<G, S, H>) -> bool {
        let i = runner.iterations@.len() as usize;
        &&& rebuilds(self.applied.egraph, self.egraph, self.n_rebuilds)
        &&& self.new_ids@.len() > 0 ==> self.roots.found_in(
            self.egraph,
            self.hooked.local_scope@,
            self.ids_before@,
            self.new_ids@,
        )
        &&& if self.applied.tally@.len() == 0 {
            asks(self.applied.scheduler, i, self.last_scheduler, self.can_stop)
        } else {
            self.last_scheduler == self.applied.scheduler
        }
        &&& extends_to(self.egraph, self.end)
    }

    /// Why the run stops with the iteration, if it does.
    pub open spec fn stop_reason(self) -> Option<StopReason> {
        conclusion(
            self.applied.result,
            self.applied.tally@.len() == 0,
            self.can_stop,
            self.start,
            self.hooked_extent,
            self.end,
        )
    }

    /// The iteration leaves the runner `after` and the record `it`.
    pub open spec fn leaves(
        self,
        runner: RunnerLocal<G, S, H>,
        rules: Vec<Rewrite<G>>,
        after: RunnerLocal<G, S, H>,
        it: Iteration<()>,
    ) -> bool {
        &&& after.egraph == self.egraph
        &&& after.iterations == runner.iterations
        &&& after.roots == self.hooked.roots
        &&& after.stop_reason == runner.stop_reason
        &&& after.hooks@ == self.hooks@
        &&& after.limits == self.limits
        &&& after.scheduler == self.last_scheduler
        &&& after.local_scope@ == grown(
            self.hooked.local_scope@,
            self.ids_before@,
            self.ids_after@,
            self.roots,
        )
        &&& it.applied@ == self.applied.tally@
        &&& it.egraph_nodes == self.start.nodes
        &&& it.egraph_classes == self.start.classes
        &&& it.n_rebuilds == self.n_rebuilds
        &&& it.stop_reason == self.stop_reason()
        &&& self.times(runner, rules, after, it)
    }

    /// Each time of the record is the one that its part of the iteration took, on what that
    /// part was given and with what it left. The total is taken last, since the search was
    /// started.
    pub open spec fn times(
        self,
        runner: RunnerLocal<G, S, H>,
        rules: Vec<Rewrite<G>>,
        after: RunnerLocal<G, S, H>,
        it: Iteration<()>,
    ) -> bool {
        let i = runner.iterations@.len() as usize;
        &&& hooks_take(
            self.limits.verdict(i, self.reading),
            runner.hooks,
            runner.hook_scope(),
            runner.iterations,
            self.hooks,
            self.hooked,
            self.begun,
            it.hook_time,
        )
        &&& search_takes(
            self.begun,
            runner.scheduler,
            i,
            self.hooked.egraph,
            rules,
            self.hooked.local_scope,
            self.scheduler,
            self.found,
            self.search_start,
            it.search_time,
        )
        &&& apply_takes(
            self.limits,
            i,
            rules,
            self.found,
            self.scheduler,
            self.hooked.egraph,
            self.ids_before,
            self.applied,
            self.ids_after,
            self.new_ids,
            it.apply_time,
        )
        &&& rebuild_takes(
            self.applied.egraph,
            self.hooked.local_scope,
            self.ids_before,
            self.new_ids,
            self.egraph,
            self.n_rebuilds,
            after.local_scope,
            it.rebuild_time,
        )
        &&& records(
            self.applied.tally,
            self.start,
            (PartTimes {
                hook: it.hook_time,
                search: it.search_time,
                apply: it.apply_time,
                rebuild: it.rebuild_time,
            }),
            self.n_rebuilds,
            self.stop_reason(),
            self.search_start,
            it,
        )
    }
}

impl<G, S, H> RunnerLocal<G, S, H> {
    /// The part of the runner that its hooks may change.
    pub open spec fn hook_scope(self) -> HookScope<G> {
        HookScope { egraph: self.egraph, roots: self.roots, local_scope: self.local_scope }
    }
}

/// One iteration of `runner` with `rules` may leave `after` and the record `it`.
#[verifier::opaque]
pub open spec fn iterates<G: EGraph, S: LocalRewriteScheduler<G>, H: LocalHook<G>>(
    runner: RunnerLocal<G, S, H>,
    rules: Vec<Rewrite<G>>,
    after: RunnerLocal<G, S, H>,
    it: Iteration<()>,
) -> bool {
    exists|t: IterationTrace<G, S, H>|
        {
            &&& #[trigger] t.begins(runner)
            &&& t.rewrites(runner, rules)
            &&& t.closes(runner)
            &&& t.leaves(runner, rules, after, it)
        }
}

/// What an iteration met on its way.
pub proof fn trace_of<G: EGraph, S: LocalRewriteScheduler<G>, H: LocalHook<G>>(
    runner: RunnerLocal<G, S, H>,
    rules: Vec<Rewrite<G>>,
    after: RunnerLocal<G, S, H>,
    it: Iteration<()>,
) -> (t: IterationTrace<G, S, H>)
    requires
        iterates(runner, rules, after, it),
    ensures
        t.begins(runner),
        t.rewrites(runner, rules),
        t.closes(runner),
        t.leaves(runner, rules, after, it),
{
    reveal(iterates);
    choose|t: IterationTrace<G, S, H>|
        {
            &&& #[trigger] t.begins(runner)
            &&& t.rewrites(runner, rules)
            &&& t.closes(runner)
            &&& t.leaves(runner, rules, after, it)
        }
}

/// An iteration keeps the records of those before it and the limits, but for the start
/// of the run, and sets no reason to stop on the runner itself.
pub proof fn law_iteration_keeps_records_and_limits<
    G: EGraph,
    S: LocalRewriteScheduler<G>,
    H: LocalHook<G>,
>(
    runner: RunnerLocal<G, S, H>,
    rules: Vec<Rewrite<G>>,
    after: RunnerLocal<G, S, H>,
    it: Iteration<()>,
)
    requires
        iterates(runner, rules, after, it),
    ensures
        after.iterations == runner.iterations,
        after.stop_reason == runner.stop_reason,
        after.limits.start_time is Some,
        after.limits == (LocalRunnerLimits {
            start_time: after.limits.start_time,
            ..runner.limits
        }),
        runner.limits.start_time is Some ==> after.limits == runner.limits,
{
    trace_of(runner, rules, after, it);
}

/// One round of a run: an iteration, whose record joins those before it.
pub open spec fn rounds<G: EGraph, S: LocalRewriteScheduler<G>, H: LocalHook<G>>(
    runner: RunnerLocal<G, S, H>,
    rules: Vec<Rewrite<G>>,
    after: RunnerLocal<G, S, H>,
) -> bool {
    exists|mid: RunnerLocal<G, S, H>, it: Iteration<()>|
        {
            &&& #[trigger] iterates(runner, rules, mid, it)
            &&& after == (RunnerLocal { iterations: after.iterations, ..mid })
            &&& after.iterations@ == mid.iterations@.push(it)
        }
}

/// The iteration of a round, and its record.
pub proof fn iteration_of<G: EGraph, S: LocalRewriteScheduler<G>, H: LocalHook<G>>(
    runner: RunnerLocal<G, S, H>,
    rules: Vec<Rewrite<G>>,
    after: RunnerLocal<G, S, H>,
) -> (res: (RunnerLocal<G, S, H>, Iteration<()>))
    requires
        rounds(runner, rules, after),
    ensures
        iterates(runner, rules, res.0, res.1),
        after == (RunnerLocal { iterations: after.iterations, ..res.0 }),
        after.iterations@ == res.0.iterations@.push(res.1),
{
    choose|mid: RunnerLocal<G, S, H>, it: Iteration<()>|
        {
            &&& #[trigger] iterates(runner, rules, mid, it)
            &&& after == (RunnerLocal { iterations: after.iterations, ..mid })
            &&& after.iterations@ == mid.iterations@.push(it)
        }
}

/// After a round the run goes on (`None`) or stops: for the reason that the iteration
/// recorded, or else for a limit that was reached.
pub open spec fn decides<G: EGraph, S, H>(
    runner: RunnerLocal<G, S, H>,
    reason: Option<StopReason>,
) -> bool {
    match runner.iterations@.last().stop_reason {
        Some(recorded) => reason == Some(recorded),
        None => exists|reading: LimitReading|
            {
                &&& #[trigger] reads(runner.limits, runner.egraph, reading)
                &&& reason == match runner.limits.verdict(
                    runner.iterations@.len() as usize,
                    reading,
                ) {
                    Ok(_) => None,
                    Err(limit) => Some(limit),
                }
            },
    }
}

/// The states of a run are those after each round: the first is that of `runner` with
/// its e-graph rebuilt, each comes from the one before by a round, and after each round
/// but the last the run goes on.
pub open spec fn run_chain<G: EGraph, S: LocalRewriteScheduler<G>, H: LocalHook<G>>(
    runner: RunnerLocal<G, S, H>,
    rules: Vec<Rewrite<G>>,
    states: Seq<RunnerLocal<G, S, H>>,
) -> bool {
    &&& states.len() > 0
    &&& states[0] == (RunnerLocal { egraph: states[0].egraph, ..runner })
    &&& exists|n: usize| #[trigger] rebuilds(runner.egraph, states[0].egraph, n)
    &&& forall|k: int|
        0 < k < states.len() ==> rounds(states[k - 1], rules, #[trigger] states[k])
    &&& forall|k: int| 0 < k < states.len() - 1 ==> decides(#[trigger] states[k], None)
}

/// A run of `runner` with `rules` may end in `after`.
pub open spec fn runs<G: EGraph, S: LocalRewriteScheduler<G>, H: LocalHook<G>>(
    runner: RunnerLocal<G, S, H>,
    rules: Vec<Rewrite<G>>,
    after: RunnerLocal<G, S, H>,
) -> bool {
    exists|states: Seq<RunnerLocal<G, S, H>>|
        {
            &&& #[trigger] run_chain(runner, rules, states)
            &&& states.len() > 1
            &&& after.stop_reason is Some
            &&& decides(states.last(), after.stop_reason)
            &&& after == (RunnerLocal { stop_reason: after.stop_reason, ..states.last() })
        }
}

/// The states of a run.
pub proof fn states_of<G: EGraph, S: LocalRewriteScheduler<G>, H: LocalHook<G>>(
    runner: RunnerLocal<G, S, H>,
    rules: Vec<Rewrite<G>>,
    after: RunnerLocal<G, S, H>,
) -> (states: Seq<RunnerLocal<G, S, H>>)
    requires
        runs(runner, rules, after),
    ensures
        run_chain(runner, rules, states),
        states.len() > 1,
        after.stop_reason is Some,
        decides(states.last(), after.stop_reason),
        after == (RunnerLocal { stop_reason: after.stop_reason, ..states.last() }),
{
    choose|states: Seq<RunnerLocal<G, S, H>>|
        {
            &&& #[trigger] run_chain(runner, rules, states)
            &&& states.len() > 1
            &&& decides(states.last(), after.stop_reason)
            &&& after == (RunnerLocal { stop_reason: after.stop_reason, ..states.last() })
        }
}

impl<G: EGraph, S: LocalRewriteScheduler<G>, H: LocalHook<G>> RunnerLocal<G, S, H> {
    /// Holds the time that has passed and the size of the e-graph against the limits.
    pub fn check_limits(&self) -> (res: RunnerResult<()>)
        requires
            self.limits.start_time is Some,
        ensures
            exists|reading: LimitReading|
                #[trigger] reads(self.limits, self.egraph, reading) && res == self.limits.verdict(
                    self.iterations@.len() as usize,
                    reading,
                ),
    {
        self.limits.check_limits(self.iterations.len(), &self.egraph)
    }

    /// Starts the clock, unless it runs already.
    pub fn try_start(&mut self)
        ensures
            final(self).limits.start_time is Some,
            old(self).limits.start_time is Some ==> *final(self) == *old(self),
            old(self).limits.start_time is None ==> clock_reads(
                final(self).limits.start_time->0,
            ),
            *final(self) == (RunnerLocal {
                limits: LocalRunnerLimits {
                    start_time: final(self).limits.start_time,
                    ..old(self).limits
                },
                ..*old(self)
            }),
    {
        if self.limits.start_time.is_none() {
            self.limits.start_time = Some(read_clock());
        }
    }

    /// Runs until there is a reason to stop.
    pub fn run(self, rules: &Vec<Rewrite<G>>) -> (res: Self)
        requires
            self.stop_reason is None,
        ensures
            runs(self, *rules, res),
    {
        let ghost first = self;
        let mut runner = self;
        let (egraph, n) = rebuilt(runner.egraph);
        assert(rebuilds(first.egraph, egraph, n));
        runner.egraph = egraph;
        let ghost mut states: Seq<Self> = seq![runner];
        let mut stop: Option<StopReason> = None;
        assert(states[0] == (RunnerLocal { egraph: states[0].egraph, ..first }));
        while stop.is_none()
            invariant
                run_chain(first, *rules, states),
                states.last() == runner,
                runner.stop_reason is None,
                states.len() > 1 ==> decides(runner, stop),
                states.len() > 1 ==> runner.limits.start_time is Some,
                stop is Some ==> states.len() > 1,
                states.len() > 1 && stop is None ==> runner.iterations@.len()
                    < runner.limits.iter_limit,
            decreases
                if stop is Some {
                    0
                } else if states.len() > 1 {
                    runner.limits.iter_limit - runner.iterations@.len()
                } else {
                    runner.limits.iter_limit as int + 1
                },
        {
            let ghost before = runner;
            let ghost before_states = states;
            let (mid, it) = runner.run_one(rules);
            let ghost g_mid = mid;
            let ghost g_it = it;
            proof {
                law_iteration_keeps_records_and_limits(before, *rules, mid, it);
            }
            runner = mid;
            let recorded: Option<StopReason> = it.stop_reason.clone();
            runner.iterations.push(it);
            assert(runner.iterations.len() == runner.iterations@.len());
            stop = match recorded {
                Some(reason) => Some(reason),
                None => match runner.check_limits() {
                    Ok(_) => None,
                    Err(limit) => Some(limit),
                },
            };
            proof {
                assert(rounds(before, *rules, runner));
                assert(runner.iterations@.last() == g_it);
                states = before_states.push(runner);
                assert(decides(runner, stop));
            }
        }
        let ghost last = runner;
        runner.stop_reason = stop;
        assert(runner == (RunnerLocal { stop_reason: runner.stop_reason, ..last }));
        runner
    }

    /// Runs one iteration: checks the limits, runs the hooks, searches, applies and
    /// rebuilds, and lets the e-classes that were created join the scope, unless they were
    /// merged into an existing one outside it.
    pub fn run_one(self, rules: &Vec<Rewrite<G>>) -> (res: (Self, Iteration<()>))
        requires
            self.stop_reason is None,
        ensures
            iterates(self, *rules, res.0, res.1),
    {
        let mut runner = self;
        runner.try_start();
        let RunnerLocal {
            egraph,
            iterations,
            roots,
            stop_reason,
            hooks,
            limits,
            scheduler,
            local_scope,
        } = runner;
        let i: usize = iterations.len();

        let checked: RunnerResult<()> = limits.check_limits(i, &egraph);
        let ghost reading = choose|reading: LimitReading| #[trigger]
            reads(limits, egraph, reading) && checked == limits.verdict(i, reading);
        let start_extent: Extent = measure(&egraph);

        let scope = HookScope { egraph, roots, local_scope };
        let (hooks, hooked, begun, hook_time) = timed_hooks(checked, hooks, scope, &iterations);
        let hooked_extent: Extent = measure(&hooked.egraph);
        let ghost g_hooked = hooked;
        let ghost g_begun = begun;

        let (scheduler, found, search_start, search_time) = timed_search(
            begun,
            scheduler,
            i,
            &hooked.egraph,
            rules,
            &hooked.local_scope,
        );
        let ghost g_scheduler = scheduler;
        let ghost g_found = found;

        let ids_before: Vec<Id> = hooked.egraph.class_ids();
        let HookScope { egraph, roots, local_scope } = hooked;
        let (applied, ids_after, new_ids, apply_time) = timed_apply(
            &limits,
            i,
            rules,
            found,
            scheduler,
            egraph,
            &ids_before,
        );
        let ghost g_applied = applied;

        let Applied { scheduler, egraph, tally, result } = applied;
        let (egraph, n_rebuilds, local_scope, rebuild_time) = timed_rebuild(
            egraph,
            local_scope,
            &ids_before,
            &new_ids,
        );
        let ghost scope_roots = choose|roots: ScopeRoots| #[trigger]
            roots.found_in(egraph, g_hooked.local_scope@, ids_before@, new_ids@) && local_scope@
                == joined(g_hooked.local_scope@, new_ids@, roots);

        let (scheduler, can_stop) = if tally.is_empty() {
            asked(scheduler, i)
        } else {
            (scheduler, false)
        };
        let end: Extent = measure(&egraph);
        let reason: Option<StopReason> = conclude(
            result,
            tally.is_empty(),
            can_stop,
            start_extent,
            hooked_extent,
            end,
        );
        let times = PartTimes {
            hook: hook_time,
            search: search_time,
            apply: apply_time,
            rebuild: rebuild_time,
        };
        let it: Iteration<()> = recorded(
            tally,
            start_extent,
            times,
            n_rebuilds,
            reason,
            &search_start,
        );
        let after = RunnerLocal {
            egraph,
            iterations,
            roots,
            stop_reason,
            hooks,
            limits,
            scheduler,
            local_scope,
        };
        proof {
            reveal(iterates);
            let t = IterationTrace {
                limits,
                reading,
                start: start_extent,
                hooks,
                hooked: g_hooked,
                begun: g_begun,
                hooked_extent,
                scheduler: g_scheduler,
                found: g_found,
                ids_before,
                applied: g_applied,
                ids_after,
                new_ids,
                egraph,
                n_rebuilds,
                roots: scope_roots,
                last_scheduler: scheduler,
                can_stop,
                end,
                search_start,
            };
            assert(t.begins(self));
            assert(t.rewrites(self, *rules));
            assert(t.closes(self));
            assert(t.leaves(self, *rules, after, it));
        }
        (after, it)
    }
}

} // verus!
