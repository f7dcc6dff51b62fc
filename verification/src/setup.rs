//! Making a runner, and what can be set on it before a run.
use vstd::prelude::*;

use crate::backoff::{BackoffView, LocalBackoffScheduler};
use crate::egraph::{EGraph, Id, added, adds};
use crate::limits::LocalRunnerLimits;
use crate::runner::RunnerLocal;
use crate::time::Duration;

verus! {

/// `runner` is as new, but for its e-graph: nothing was run, added or hooked, the
/// limits are 30 iterations, 10,000 e-nodes and 5 seconds, and no rule was seen.
pub open spec fn is_fresh<G, H>(runner: RunnerLocal<G, LocalBackoffScheduler, H>) -> bool {
    &&& runner.iterations@.len() == 0
    &&& runner.roots@.len() == 0
    &&& runner.stop_reason is None
    &&& runner.hooks@.len() == 0
    &&& runner.limits == (LocalRunnerLimits {
        iter_limit: 30,
        node_limit: 10_000,
        time_limit: Duration { nanos: 5_000_000_000 },
        start_time: None,
    })
    &&& runner.scheduler@ == (BackoffView {
        default_match_limit: 1_000,
        default_ban_length: 5,
        stats: Seq::empty(),
    })
    &&& runner.local_scope@.len() == 0
}

impl<G: EGraph, H> RunnerLocal<G, LocalBackoffScheduler, H> {
    /// A runner on an empty e-graph, with an empty scope and a back-off scheduler.
    pub fn new(analysis: G::Analysis) -> (runner: Self)
        ensures
            call_ensures(G::new, (analysis,), runner.egraph),
            is_fresh(runner),
    {
        RunnerLocal {
            limits: LocalRunnerLimits {
                iter_limit: 30,
                node_limit: 10_000,
                time_limit: Duration::from_secs(5),
                start_time: None,
            },
            egraph: G::new(analysis),
            roots: Vec::new(),
            iterations: Vec::new(),
            stop_reason: None,
            hooks: Vec::new(),
            scheduler: LocalBackoffScheduler::default(),
            local_scope: Vec::new(),
        }
    }
}

impl<G: EGraph, H> Default for RunnerLocal<G, LocalBackoffScheduler, H> where
    G::Analysis: Default,
 {
    fn default() -> (runner: Self)
        ensures
            exists|analysis: G::Analysis|
                call_ensures(<G::Analysis as Default>::default, (), analysis)
                    && #[trigger] call_ensures(G::new, (analysis,), runner.egraph),
            is_fresh(runner),
    {
        Self::new(Default::default())
    }
}

impl<G, S, H> RunnerLocal<G, S, H> {
    /// Sets the e-classes from which rewrites are searched.
    pub fn with_local_scope(self, local_scope: Vec<Id>) -> (res: Self)
        ensures
            res == (RunnerLocal { local_scope, ..self }),
    {
        RunnerLocal { local_scope, ..self }
    }

    /// Replaces the e-classes from which rewrites are searched.
    pub fn set_local_scope(&mut self, local_scope: Vec<Id>)
        ensures
            *final(self) == (RunnerLocal { local_scope, ..*old(self) }),
    {
        self.local_scope = local_scope;
    }

    /// Sets the limit on iterations, which is 30 at first.
    pub fn with_iter_limit(self, iter_limit: usize) -> (res: Self)
        ensures
            res == (RunnerLocal {
                limits: LocalRunnerLimits { iter_limit, ..self.limits },
                ..self
            }),
    {
        RunnerLocal { limits: LocalRunnerLimits { iter_limit, ..self.limits }, ..self }
    }

    /// Sets the limit on e-nodes, which is 10,000 at first.
    pub fn with_node_limit(self, node_limit: usize) -> (res: Self)
        ensures
            res == (RunnerLocal {
                limits: LocalRunnerLimits { node_limit, ..self.limits },
                ..self
            }),
    {
        RunnerLocal { limits: LocalRunnerLimits { node_limit, ..self.limits }, ..self }
    }

    /// Sets the limit on time, which is 5 seconds at first.
    pub fn with_time_limit(self, time_limit: Duration) -> (res: Self)
        ensures
            res == (RunnerLocal {
                limits: LocalRunnerLimits { time_limit, ..self.limits },
                ..self
            }),
    {
        RunnerLocal { limits: LocalRunnerLimits { time_limit, ..self.limits }, ..self }
    }

    /// Adds a hook that is run at the start of each iteration, after those before it.
    pub fn with_hook(self, hook: H) -> (res: Self)
        ensures
            res.hooks@ == self.hooks@.push(hook),
            res == (RunnerLocal { hooks: res.hooks, ..self }),
    {
        let mut runner = self;
        runner.hooks.push(hook);
        runner
    }

    /// Replaces the scheduler.
    pub fn with_scheduler<T>(self, scheduler: T) -> (res: RunnerLocal<G, T, H>)
        ensures
            res == (RunnerLocal {
                scheduler,
                egraph: self.egraph,
                iterations: self.iterations,
                roots: self.roots,
                stop_reason: self.stop_reason,
                hooks: self.hooks,
                limits: self.limits,
                local_scope: self.local_scope,
            }),
    {
        RunnerLocal {
            scheduler,
            egraph: self.egraph,
            iterations: self.iterations,
            roots: self.roots,
            stop_reason: self.stop_reason,
            hooks: self.hooks,
            limits: self.limits,
            local_scope: self.local_scope,
        }
    }

    /// Replaces the e-graph.
    pub fn with_egraph(self, egraph: G) -> (res: Self)
        ensures
            res == (RunnerLocal { egraph, ..self }),
    {
        RunnerLocal { egraph, ..self }
    }
}

impl<G: EGraph, S, H> RunnerLocal<G, S, H> {
    /// Adds an expression to the e-graph and remembers its root.
    pub fn with_expr(self, expr: &G::Expr) -> (res: Self)
        ensures
            exists|id: Id|
                #[trigger] adds(self.egraph, *expr, res.egraph, id) && res.roots@
                    == self.roots@.push(id),
            res == (RunnerLocal { egraph: res.egraph, roots: res.roots, ..self }),
    {
        let mut runner = self;
        let (egraph, id) = added(runner.egraph, expr);
        assert(adds(self.egraph, *expr, egraph, id));
        runner.egraph = egraph;
        runner.roots.push(id);
        runner
    }

    /// Makes the e-graph record how equalities come about.
    pub fn with_explanations_enabled(self) -> (res: Self)
        ensures
            call_ensures(G::with_explanations_enabled, (self.egraph,), res.egraph),
            res == (RunnerLocal { egraph: res.egraph, ..self }),
    {
        RunnerLocal { egraph: self.egraph.with_explanations_enabled(), ..self }
    }

    /// Leaves explanations as long as they come.
    pub fn without_explanation_length_optimization(self) -> (res: Self)
        ensures
            call_ensures(G::without_explanation_length_optimization, (self.egraph,), res.egraph),
            res == (RunnerLocal { egraph: res.egraph, ..self }),
    {
        RunnerLocal { egraph: self.egraph.without_explanation_length_optimization(), ..self }
    }

    /// Makes explanations shorter.
    pub fn with_explanation_length_optimization(self) -> (res: Self)
        ensures
            call_ensures(G::with_explanation_length_optimization, (self.egraph,), res.egraph),
            res == (RunnerLocal { egraph: res.egraph, ..self }),
    {
        RunnerLocal { egraph: self.egraph.with_explanation_length_optimization(), ..self }
    }

    /// Makes the e-graph record nothing of how equalities come about.
    pub fn with_explanations_disabled(self) -> (res: Self)
        ensures
            call_ensures(G::with_explanations_disabled, (self.egraph,), res.egraph),
            res == (RunnerLocal { egraph: res.egraph, ..self }),
    {
        RunnerLocal { egraph: self.egraph.with_explanations_disabled(), ..self }
    }

    /// Explains why two expressions are equal.
    pub fn explain_equivalence(&mut self, left: &G::Expr, right: &G::Expr) -> (res:
        G::Explanation)
        ensures
            exists|g: &mut G|
                *g == old(self).egraph && *final(g) == final(self).egraph
                    && #[trigger] call_ensures(G::explain_equivalence, (g, left, right), res),
            *final(self) == (RunnerLocal { egraph: final(self).egraph, ..*old(self) }),
    {
        self.egraph.explain_equivalence(left, right)
    }

    /// Explains why an expression is equal to a pattern under a substitution.
    pub fn explain_matches(
        &mut self,
        left: &G::Expr,
        right: &G::Pattern,
        subst: &G::Subst,
    ) -> (res: G::Explanation)
        ensures
            exists|g: &mut G|
                *g == old(self).egraph && *final(g) == final(self).egraph
                    && #[trigger] call_ensures(G::explain_matches, (g, left, right, subst), res),
            *final(self) == (RunnerLocal { egraph: final(self).egraph, ..*old(self) }),
    {
        self.egraph.explain_matches(left, right, subst)
    }
}

} // verus!
