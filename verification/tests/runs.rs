use std::cell::RefCell;
use std::rc::Rc;

use egg_local::runner::{conclude, Extent};
use egg_local::{
    check_local_rules, Duration, EGraph, HookScope, Id, Iteration, LocalBackoffScheduler,
    LocalHook, LocalRewriteScheduler, LocalSimpleScheduler, LocalStopPolicy, Rewrite, RunnerLocal,
    RunnerResult, SearchMatches, StopReason, Symbol,
};

/// A toy e-graph: its e-classes are numbers, and rules create new ones.
struct Toy {
    classes: Vec<usize>,
    size: usize,
    rebuilds: usize,
    /// Which e-classes the next rebuild merges into which.
    pending: Vec<(usize, usize)>,
    merged: Vec<(usize, usize)>,
    marks: Vec<String>,
    searches: Rc<RefCell<Vec<(Vec<usize>, usize)>>>,
    /// Which e-classes were asked for.
    asked: Rc<RefCell<Vec<usize>>>,
}

#[derive(Clone, Copy)]
enum Act {
    /// Matches the scope's e-classes below a bound that have no child yet, and gives each
    /// a new e-class.
    Split { below: usize },
    /// Creates an e-class that is merged away at once.
    Vanish,
    /// Gives each of the scope's e-classes below ten a new e-class, which the rebuild merges
    /// with another: the new one stays or the other.
    Fuse { with: usize, keep_new: bool },
    /// Matches every e-class of the scope this many times and changes nothing.
    Noise { per_class: usize },
}

impl EGraph for Toy {
    type Analysis = usize;
    type Expr = usize;
    type Pattern = char;
    type Subst = usize;
    type Rule = Act;
    type Explanation = String;

    fn new(analysis: usize) -> Self {
        Toy {
            classes: Vec::new(),
            size: analysis,
            rebuilds: 0,
            pending: Vec::new(),
            merged: Vec::new(),
            marks: Vec::new(),
            searches: Rc::new(RefCell::new(Vec::new())),
            asked: Rc::new(RefCell::new(Vec::new())),
        }
    }

    fn add_expr(&mut self, expr: &usize) -> Id {
        self.classes.push(*expr);
        self.size += 1;
        Id::from(*expr)
    }

    fn total_size(&self) -> usize {
        self.size
    }

    fn total_number_of_nodes(&self) -> usize {
        self.size + 100
    }

    fn number_of_classes(&self) -> usize {
        self.classes.len()
    }

    fn class_ids(&self) -> Vec<Id> {
        self.classes.iter().map(|c| Id::from(*c)).collect()
    }

    fn rebuild(&mut self) -> usize {
        for (from, into) in std::mem::take(&mut self.pending) {
            self.classes.retain(|c| *c != from);
            self.merged.push((from, into));
        }
        self.rebuilds += 1;
        self.rebuilds
    }

    fn find(&self, id: Id) -> Id {
        self.asked.borrow_mut().push(id.index);
        match self.merged.iter().find(|m| m.0 == id.index) {
            Some(m) => self.find(Id::from(m.1)),
            None => id,
        }
    }

    fn search_local_with_limit(
        &self,
        rule: &Act,
        local_scope: &Vec<Id>,
        limit: usize,
    ) -> Vec<SearchMatches<usize>> {
        let scope: Vec<usize> = local_scope.iter().map(|id| id.index).collect();
        self.searches.borrow_mut().push((scope.clone(), limit));
        let mut found = Vec::new();
        for class in scope {
            let n = match rule {
                Act::Split { below } if class < *below && !self.classes.contains(&(class + 10)) => 1,
                Act::Split { .. } => 0,
                Act::Vanish => 1,
                Act::Fuse { .. } => {
                    let child = class + 10;
                    let known = self.classes.contains(&child)
                        || self.merged.iter().any(|m| m.0 == child);
                    usize::from(class < 10 && !known)
                }
                Act::Noise { per_class } => *per_class,
            };
            if n > 0 {
                found.push(SearchMatches { eclass: Id::from(class), substs: vec![class; n] });
            }
        }
        found
    }

    fn apply_rule(&mut self, rule: &Act, matches: &Vec<SearchMatches<usize>>) -> Vec<Id> {
        let mut changed = Vec::new();
        for m in matches {
            match rule {
                Act::Split { .. } => {
                    self.classes.push(m.eclass.index + 10);
                    self.size += 1;
                    changed.push(m.eclass);
                }
                Act::Vanish => changed.push(m.eclass),
                Act::Fuse { with, keep_new } => {
                    let child = m.eclass.index + 10;
                    self.classes.push(child);
                    self.pending.push(if *keep_new { (*with, child) } else { (child, *with) });
                    changed.push(m.eclass);
                }
                Act::Noise { .. } => {}
            }
        }
        changed
    }

    fn with_explanations_enabled(mut self) -> Self {
        self.marks.push("enabled".to_string());
        self
    }

    fn with_explanations_disabled(mut self) -> Self {
        self.marks.push("disabled".to_string());
        self
    }

    fn with_explanation_length_optimization(mut self) -> Self {
        self.marks.push("short".to_string());
        self
    }

    fn without_explanation_length_optimization(mut self) -> Self {
        self.marks.push("long".to_string());
        self
    }

    fn explain_equivalence(&mut self, left: &usize, right: &usize) -> String {
        self.marks.push("explained".to_string());
        format!("{} = {}", left, right)
    }

    fn explain_matches(&mut self, left: &usize, right: &char, subst: &usize) -> String {
        self.marks.push("matched".to_string());
        format!("{} = {}[{}]", left, right, subst)
    }
}

fn toy(classes: &[usize]) -> Toy {
    let mut graph = Toy::new(0);
    for class in classes {
        graph.add_expr(class);
    }
    graph
}

fn rule(name: &str, act: Act) -> Rewrite<Toy> {
    Rewrite { name: Symbol::from(name), rule: act }
}

fn ids(list: &[usize]) -> Vec<Id> {
    list.iter().map(|i| Id::from(*i)).collect()
}

fn local(classes: &[usize], scope: &[usize]) -> RunnerLocal<Toy> {
    RunnerLocal::new(0)
        .with_egraph(toy(classes))
        .with_time_limit(Duration::from_secs(1_000))
        .with_local_scope(ids(scope))
}

fn applied(it: &Iteration<()>, name: &str) -> Option<usize> {
    it.applied.get(&Symbol::from(name)).copied()
}

/// Notes its name and how many iterations it saw, and stops the run when told to.
struct Note {
    name: &'static str,
    seen: Rc<RefCell<Vec<(&'static str, usize)>>>,
    stop_at: Option<usize>,
}

impl LocalHook<Toy> for Note {
    fn call(
        &mut self,
        _scope: &mut HookScope<Toy>,
        iterations: &Vec<Iteration<()>>,
    ) -> Result<(), String> {
        self.seen.borrow_mut().push((self.name, iterations.len()));
        if self.stop_at == Some(iterations.len()) {
            Err(format!("{} is done", self.name))
        } else {
            Ok(())
        }
    }
}

/// Adds an e-class and puts it in the scope, once.
struct Grow {
    class: Option<usize>,
}

impl LocalHook<Toy> for Grow {
    fn call(
        &mut self,
        scope: &mut HookScope<Toy>,
        _iterations: &Vec<Iteration<()>>,
    ) -> Result<(), String> {
        if let Some(class) = self.class.take() {
            let id = scope.egraph.add_expr(&class);
            scope.roots.push(id);
            scope.local_scope.push(id);
        }
        Ok(())
    }
}

/// Lets time pass.
struct Wait;

impl LocalHook<Toy> for Wait {
    fn call(
        &mut self,
        _scope: &mut HookScope<Toy>,
        _iterations: &Vec<Iteration<()>>,
    ) -> Result<(), String> {
        let start = std::time::Instant::now();
        while start.elapsed().as_nanos() < 3_000_000 {}
        Ok(())
    }
}

#[test]
fn new_runners_have_the_default_limits() {
    let runner: RunnerLocal<Toy> = RunnerLocal::new(7);
    assert_eq!(runner.egraph.size, 7);
    assert_eq!(runner.limits.iter_limit, 30);
    assert_eq!(runner.limits.node_limit, 10_000);
    assert_eq!(runner.limits.time_limit, Duration::from_secs(5));
    assert!(runner.limits.start_time.is_none());
    assert!(runner.iterations.is_empty() && runner.roots.is_empty() && runner.hooks.is_empty());
    assert!(runner.local_scope.is_empty());
    assert_eq!(runner.stop_reason, None);
    let other: RunnerLocal<Toy> = RunnerLocal::default();
    assert_eq!(other.egraph.size, 0);
    assert_eq!(other.limits.iter_limit, 30);
}

#[test]
fn builders_set_what_they_name() {
    let mut runner: RunnerLocal<Toy> = RunnerLocal::default()
        .with_egraph(toy(&[4]))
        .with_iter_limit(3)
        .with_node_limit(50)
        .with_time_limit(Duration::from_secs(9))
        .with_local_scope(ids(&[4]))
        .with_expr(&5)
        .with_expr(&6);
    assert_eq!(runner.limits.iter_limit, 3);
    assert_eq!(runner.limits.node_limit, 50);
    assert_eq!(runner.limits.time_limit, Duration::from_secs(9));
    assert_eq!(runner.local_scope, ids(&[4]));
    assert_eq!(runner.roots, ids(&[5, 6]));
    assert_eq!(runner.egraph.classes, vec![4, 5, 6]);
    runner.set_local_scope(ids(&[5, 6]));
    assert_eq!(runner.local_scope, ids(&[5, 6]));
}

#[test]
fn explanations_come_from_the_egraph() {
    let mut runner: RunnerLocal<Toy> = RunnerLocal::default()
        .with_explanations_enabled()
        .without_explanation_length_optimization()
        .with_explanation_length_optimization()
        .with_explanations_disabled();
    assert_eq!(runner.egraph.marks, vec!["enabled", "long", "short", "disabled"]);
    assert_eq!(runner.explain_equivalence(&1, &2), "1 = 2");
    assert_eq!(runner.explain_matches(&1, &'x', &3), "1 = x[3]");
    assert_eq!(runner.egraph.marks[4..], ["explained", "matched"]);
}

#[test]
fn runs_saturate_inside_the_scope() {
    let rules = vec![rule("split", Act::Split { below: 20 })];
    let runner = local(&[1, 2], &[1]).run(&rules);
    assert_eq!(runner.stop_reason, Some(StopReason::Saturated));
    assert_eq!(runner.egraph.classes, vec![1, 2, 11, 21]);
    assert_eq!(runner.local_scope, ids(&[1, 11, 21]));
    assert_eq!(runner.iterations.len(), 3);
    assert_eq!(applied(&runner.iterations[0], "split"), Some(1));
    assert_eq!(applied(&runner.iterations[1], "split"), Some(1));
    assert!(runner.iterations[2].applied.is_empty());
    assert_eq!(runner.iterations[0].stop_reason, None);
    assert_eq!(runner.iterations[2].stop_reason, Some(StopReason::Saturated));
    assert_eq!(runner.iterations[1].egraph_nodes, 3);
    assert_eq!(runner.iterations[1].egraph_classes, 3);
    let searches = runner.egraph.searches.borrow();
    assert_eq!(searches[0], (vec![1], 1_001));
    assert_eq!(searches[1], (vec![1, 11], 1_001));
    assert_eq!(searches[2], (vec![1, 11, 21], 1_001));
}

#[test]
fn empty_scope_finds_nothing() {
    let rules = vec![rule("split", Act::Split { below: 20 })];
    let runner = local(&[1, 2], &[]).run(&rules);
    assert_eq!(runner.stop_reason, Some(StopReason::Saturated));
    assert_eq!(runner.egraph.classes, vec![1, 2]);
    assert_eq!(runner.iterations.len(), 1);
}

#[test]
fn merged_classes_do_not_join_the_scope() {
    let rules = vec![rule("vanish", Act::Vanish)];
    let runner = local(&[1], &[1]).with_iter_limit(2).run(&rules);
    assert_eq!(runner.local_scope, ids(&[1]));
    assert_eq!(runner.stop_reason, Some(StopReason::IterationLimit(2)));
    assert_eq!(applied(&runner.iterations[0], "vanish"), Some(1));
}

#[test]
fn classes_merged_into_one_outside_do_not_join_the_scope() {
    for keep_new in [false, true] {
        let rules = vec![rule("fuse", Act::Fuse { with: 2, keep_new })];
        let runner = local(&[1, 2], &[1]).run(&rules);
        assert_eq!(runner.stop_reason, Some(StopReason::Saturated));
        assert_eq!(applied(&runner.iterations[0], "fuse"), Some(1));
        assert_eq!(runner.egraph.find(Id::from(11)), runner.egraph.find(Id::from(2)));
        assert_eq!(runner.local_scope, ids(&[1]));
    }
}

#[test]
fn classes_merged_into_one_of_the_scope_join_it() {
    let rules = vec![rule("fuse", Act::Fuse { with: 1, keep_new: false })];
    let runner = local(&[1, 2], &[1]).run(&rules);
    assert_eq!(runner.egraph.find(Id::from(11)), Id::from(1));
    assert_eq!(runner.local_scope, ids(&[1, 11]));
}

#[test]
fn covering_scope_stays_covering() {
    let rules = vec![
        rule("fuse", Act::Fuse { with: 2, keep_new: false }),
        rule("split", Act::Split { below: 30 }),
    ];
    let runner = local(&[1, 2], &[2, 1]).run(&rules);
    for class in runner.egraph.class_ids() {
        assert!(runner.local_scope.contains(&class));
    }
}

#[test]
fn nothing_is_asked_of_the_scope_without_creation() {
    let rules = vec![rule("noise", Act::Noise { per_class: 1 })];
    let runner = local(&[1, 2], &[1, 77]).run(&rules);
    assert_eq!(runner.stop_reason, Some(StopReason::Saturated));
    assert_eq!(runner.local_scope, ids(&[1, 77]));
    assert!(runner.egraph.asked.borrow().is_empty());
}

#[test]
fn parts_of_an_iteration_are_timed_apart() {
    let rules = vec![rule("split", Act::Split { below: 1_000 })];
    let (_, it) = local(&[1], &[1]).with_hook(Box::new(Wait)).run_one(&rules);
    assert!(it.hook_time.as_nanos() >= 3_000_000);
    let parts = it.search_time.as_nanos() + it.apply_time.as_nanos() + it.rebuild_time.as_nanos();
    assert!(it.total_time.as_nanos() >= parts);
}

#[test]
fn iteration_limit_stops_after_that_many() {
    let rules = vec![rule("split", Act::Split { below: 1_000 })];
    let runner = local(&[1], &[1]).with_iter_limit(4).run(&rules);
    assert_eq!(runner.stop_reason, Some(StopReason::IterationLimit(4)));
    assert_eq!(runner.iterations.len(), 4);
    assert_eq!(runner.iterations[3].stop_reason, None);
    assert_eq!(runner.egraph.classes, vec![1, 11, 21, 31, 41]);
}

#[test]
fn reached_limit_refuses_the_first_iteration() {
    let seen = Rc::new(RefCell::new(Vec::new()));
    let hook = Note { name: "a", seen: seen.clone(), stop_at: None };
    let rules = vec![rule("split", Act::Split { below: 1_000 })];
    let runner = local(&[1], &[1]).with_iter_limit(0).with_hook(Box::new(hook)).run(&rules);
    assert_eq!(runner.stop_reason, Some(StopReason::IterationLimit(0)));
    assert_eq!(runner.iterations.len(), 1);
    assert_eq!(runner.iterations[0].stop_reason, Some(StopReason::IterationLimit(0)));
    assert!(runner.iterations[0].applied.is_empty());
    assert_eq!(runner.egraph.classes, vec![1]);
    assert_eq!(runner.egraph.rebuilds, 2);
    assert!(runner.egraph.searches.borrow().is_empty());
    assert!(seen.borrow().is_empty());
    assert_eq!(runner.hooks.len(), 1);
}

#[test]
fn node_limit_stops_between_rules() {
    let rules = vec![
        rule("first", Act::Split { below: 5 }),
        rule("second", Act::Split { below: 5 }),
    ];
    let runner = local(&[1, 2], &[1, 2]).with_node_limit(3).run(&rules);
    assert_eq!(runner.stop_reason, Some(StopReason::NodeLimit(4)));
    assert_eq!(runner.iterations.len(), 1);
    assert_eq!(applied(&runner.iterations[0], "first"), Some(2));
    assert_eq!(applied(&runner.iterations[0], "second"), None);
    assert_eq!(runner.local_scope, ids(&[1, 2, 11, 12]));
}

#[test]
fn time_limit_stops_the_run() {
    let rules = vec![rule("split", Act::Split { below: 1_000 })];
    let runner = local(&[1], &[1])
        .with_time_limit(Duration::from_nanos(2_000_000))
        .with_hook(Box::new(Wait))
        .run(&rules);
    match runner.stop_reason {
        Some(StopReason::TimeLimit(d)) => assert!(d.as_nanos() > 2_000_000),
        _ => panic!("the run should have stopped for time"),
    }
    assert_eq!(runner.iterations.len(), 1);
    assert!(runner.iterations[0].hook_time.as_nanos() >= 3_000_000);
}

#[test]
fn hooks_run_in_order_up_to_the_first_reason() {
    let seen = Rc::new(RefCell::new(Vec::new()));
    let rules = vec![rule("split", Act::Split { below: 1_000 })];
    let runner = local(&[1], &[1])
        .with_hook(Box::new(Note { name: "a", seen: seen.clone(), stop_at: None }))
        .with_hook(Box::new(Note { name: "b", seen: seen.clone(), stop_at: Some(1) }))
        .with_hook(Box::new(Note { name: "c", seen: seen.clone(), stop_at: None }))
        .run(&rules);
    assert_eq!(runner.stop_reason, Some(StopReason::Other("b is done".to_string())));
    assert_eq!(*seen.borrow(), vec![("a", 0), ("b", 0), ("c", 0), ("a", 1), ("b", 1)]);
    assert_eq!(runner.iterations.len(), 2);
    assert_eq!(runner.egraph.classes, vec![1, 11]);
    assert_eq!(runner.egraph.searches.borrow().len(), 1);
    assert_eq!(runner.hooks.len(), 3);
}

#[test]
fn hooks_can_change_egraph_and_scope() {
    let rules = vec![rule("split", Act::Split { below: 5 })];
    let runner = local(&[1], &[1]).with_hook(Box::new(Grow { class: Some(3) })).run(&rules);
    assert_eq!(runner.stop_reason, Some(StopReason::Saturated));
    assert_eq!(runner.roots, ids(&[3]));
    assert_eq!(runner.local_scope, ids(&[1, 3, 11, 13]));
    assert_eq!(runner.iterations.len(), 2);
}

#[test]
fn change_by_a_hook_is_not_saturation() {
    let rules: Vec<Rewrite<Toy>> = Vec::new();
    let runner = local(&[1], &[1]).with_hook(Box::new(Grow { class: Some(3) })).run(&rules);
    assert_eq!(runner.iterations.len(), 2);
    assert_eq!(runner.iterations[0].stop_reason, None);
    assert_eq!(runner.stop_reason, Some(StopReason::Saturated));
}

#[test]
fn banned_rules_are_skipped_and_fast_forwarded() {
    let rules = vec![rule("noise", Act::Noise { per_class: 3 })];
    let scheduler = LocalBackoffScheduler::default().rule_match_limit("noise", 1);
    let runner = local(&[1], &[1]).with_scheduler(scheduler).run(&rules);
    assert_eq!(runner.stop_reason, Some(StopReason::Saturated));
    let limits: Vec<usize> = runner.egraph.searches.borrow().iter().map(|s| s.1).collect();
    assert_eq!(limits, vec![2, 3, 5]);
    let mut scheduler = runner.scheduler;
    let stats = *scheduler.rule_stats(Symbol::from("noise"));
    assert_eq!(stats.times_banned, 2);
    assert_eq!(stats.times_applied, 1);
}

#[test]
fn rules_that_are_not_banned_still_run() {
    let rules = vec![
        rule("noise", Act::Noise { per_class: 3 }),
        rule("split", Act::Split { below: 1_000 }),
    ];
    let scheduler = LocalBackoffScheduler::default().rule_match_limit("noise", 1);
    let runner = local(&[1], &[1]).with_scheduler(scheduler).with_iter_limit(5).run(&rules);
    assert_eq!(runner.egraph.classes.len(), 6);
    assert_eq!(runner.egraph.searches.borrow().len(), 6);
    let mut scheduler = runner.scheduler;
    assert_eq!(scheduler.rule_stats(Symbol::from("noise")).banned_until, 5);
    assert_eq!(scheduler.rule_stats(Symbol::from("split")).times_applied, 5);
}

#[test]
fn rules_that_must_not_be_banned_are_not() {
    let rules = vec![rule("noise", Act::Noise { per_class: 3 })];
    let scheduler =
        LocalBackoffScheduler::default().with_initial_match_limit(1).do_not_ban("noise");
    let runner = local(&[1], &[1]).with_scheduler(scheduler).run(&rules);
    assert_eq!(runner.iterations.len(), 1);
    assert_eq!(runner.egraph.searches.borrow()[0].1, usize::MAX);
}

#[test]
fn too_many_bans_stop_the_run() {
    let rules = vec![rule("noise", Act::Noise { per_class: 1 })];
    let scheduler =
        LocalBackoffScheduler::default().rule_match_limit("noise", 0).rule_ban_length("noise", 0);
    let runner = local(&[1], &[1]).with_scheduler(scheduler).with_iter_limit(1_000);
    let mut runner = runner;
    let bits = usize::BITS as usize;
    for _ in 0..bits {
        let found = runner
            .scheduler
            .search_rewrite_local(0, &runner.egraph, &rules[0], &runner.local_scope)
            .unwrap();
        assert!(found.is_empty());
    }
    assert_eq!(runner.scheduler.rule_stats(Symbol::from("noise")).times_banned, bits);
    let runner = runner.run(&rules);
    assert_eq!(runner.stop_reason, Some(StopReason::Overflow));
    assert_eq!(runner.iterations.len(), 1);
}

#[test]
fn simple_scheduler_searches_without_limit() {
    let rules = vec![rule("noise", Act::Noise { per_class: 2_000 })];
    let runner = local(&[1], &[1]).with_scheduler(LocalSimpleScheduler).run(&rules);
    assert_eq!(runner.stop_reason, Some(StopReason::Saturated));
    assert_eq!(*runner.egraph.searches.borrow(), vec![(vec![1], usize::MAX)]);
}

#[test]
fn unlimited_rules_are_searched_as_by_the_simple_scheduler() {
    let rewrite = rule("noise", Act::Noise { per_class: 2_000 });
    let graph = toy(&[1, 2]);
    let scope = ids(&[2, 1]);
    let mut simple = LocalSimpleScheduler;
    let mut backoff = LocalBackoffScheduler::default().do_not_ban("noise");
    for iteration in [0, 7, 3] {
        let a = simple.search_rewrite_local(iteration, &graph, &rewrite, &scope).unwrap();
        let b = backoff.search_rewrite_local(iteration, &graph, &rewrite, &scope).unwrap();
        assert_eq!(a.len(), 2);
        assert_eq!(a[0].eclass, Id::from(2));
        for (x, y) in a.iter().zip(&b) {
            assert_eq!((x.eclass, &x.substs), (y.eclass, &y.substs));
        }
        assert_eq!(b.len(), a.len());
        assert!(backoff.can_stop(iteration));
    }
    let searches = graph.searches.borrow();
    assert!(searches.iter().all(|s| *s == (vec![2, 1], usize::MAX)));
}

#[test]
fn matches_are_seeded_in_the_scope() {
    let rewrite = rule("noise", Act::Noise { per_class: 1 });
    let graph = toy(&[1, 2, 3]);
    let mut simple = LocalSimpleScheduler;
    let mut backoff = LocalBackoffScheduler::default();
    for scope in [ids(&[]), ids(&[3]), ids(&[2, 1])] {
        let a = simple.search_rewrite_local(0, &graph, &rewrite, &scope).unwrap();
        let b = backoff.search_rewrite_local(0, &graph, &rewrite, &scope).unwrap();
        assert_eq!(a.iter().map(|m| m.eclass).collect::<Vec<Id>>(), scope);
        assert_eq!(b.iter().map(|m| m.eclass).collect::<Vec<Id>>(), scope);
    }
    assert_eq!(backoff.all_stats().len(), 1);
    assert_eq!(backoff.all_stats().value_at(0).times_applied, 3);
}

/// A scheduler that searches every other iteration.
struct EveryOther {
    asked: usize,
}

impl LocalStopPolicy for EveryOther {
    fn can_stop(&mut self, iteration: usize) -> bool {
        self.asked += 1;
        iteration % 2 == 0
    }
}

impl LocalRewriteScheduler<Toy> for EveryOther {
    fn search_rewrite_local(
        &mut self,
        iteration: usize,
        egraph: &Toy,
        rewrite: &Rewrite<Toy>,
        local_scope: &Vec<Id>,
    ) -> RunnerResult<Vec<SearchMatches<usize>>> {
        if iteration % 2 == 1 {
            return Ok(Vec::new());
        }
        Ok(egraph.search_local_with_limit(&rewrite.rule, local_scope, 5))
    }
}

#[test]
fn schedulers_can_be_replaced() {
    let rules = vec![rule("split", Act::Split { below: 5 })];
    let runner = local(&[1], &[1]).with_scheduler(EveryOther { asked: 0 }).run(&rules);
    assert_eq!(runner.stop_reason, Some(StopReason::Saturated));
    assert_eq!(runner.iterations.len(), 3);
    assert_eq!(runner.scheduler.asked, 2);
}

#[test]
fn same_name_is_tallied_together() {
    let rules = vec![
        rule("split", Act::Split { below: 2 }),
        rule("other", Act::Vanish),
        rule("split", Act::Split { below: 2 }),
    ];
    let runner = local(&[1], &[1]).with_iter_limit(1).run(&rules);
    let record = &runner.iterations[0];
    assert_eq!(record.applied.len(), 2);
    assert_eq!(record.applied.key_at(0).as_str(), "split");
    assert_eq!(applied(record, "split"), Some(2));
    assert_eq!(applied(record, "other"), Some(1));
}

#[test]
fn shared_names_are_found() {
    let rules = vec![
        rule("b", Act::Vanish),
        rule("a", Act::Vanish),
        rule("b", Act::Vanish),
        rule("c", Act::Vanish),
        rule("a", Act::Vanish),
        rule("b", Act::Vanish),
    ];
    let shared = check_local_rules(&rules);
    assert_eq!(shared.len(), 2);
    assert_eq!((shared[0].0.as_str(), shared[0].1), ("b", 3));
    assert_eq!((shared[1].0.as_str(), shared[1].1), ("a", 2));
    let own = vec![rule("b", Act::Vanish), rule("c", Act::Vanish)];
    assert!(check_local_rules(&own).is_empty());
}

#[test]
fn single_steps_keep_the_record_apart() {
    let rules = vec![rule("split", Act::Split { below: 1_000 })];
    let (runner, it) = local(&[1], &[1]).run_one(&rules);
    assert!(runner.iterations.is_empty());
    assert!(runner.limits.start_time.is_some());
    assert_eq!(runner.stop_reason, None);
    assert_eq!(it.stop_reason, None);
    assert_eq!(it.n_rebuilds, 1);
    assert_eq!(applied(&it, "split"), Some(1));
    assert_eq!(runner.check_limits(), Ok(()));
}

#[test]
fn saturation_needs_rest_and_consent() {
    let e = Extent { nodes: 4, classes: 2 };
    let f = Extent { nodes: 4, classes: 3 };
    let other = StopReason::NodeLimit(9);
    assert_eq!(conclude(Ok(()), true, true, e, e, e), Some(StopReason::Saturated));
    assert_eq!(conclude(Ok(()), false, true, e, e, e), None);
    assert_eq!(conclude(Ok(()), true, false, e, e, e), None);
    assert_eq!(conclude(Ok(()), true, true, e, f, e), None);
    assert_eq!(conclude(Ok(()), true, true, e, e, f), None);
    assert_eq!(conclude(Err(other.clone()), true, true, e, e, e), Some(other));
}

#[test]
fn started_clocks_are_left_alone() {
    let mut runner = local(&[1], &[1]);
    runner.try_start();
    let first = runner.limits.start_time;
    runner.try_start();
    assert!(first.is_some());
    assert_eq!(runner.limits.start_time, first);
}

#[test]
fn reports_add_up_the_iterations() {
    let rules = vec![rule("split", Act::Split { below: 20 })];
    let mut runner = local(&[1, 2], &[1]).run(&rules);
    for (k, it) in runner.iterations.iter_mut().enumerate() {
        it.search_time = Duration::from_nanos(10 + k as u128);
        it.apply_time = Duration::from_nanos(20 + k as u128);
        it.rebuild_time = Duration::from_nanos(30 + k as u128);
        it.total_time = Duration::from_nanos(40 + k as u128);
    }
    let report = runner.report();
    assert_eq!(report.stop_reason, StopReason::Saturated);
    assert_eq!(report.iterations, 3);
    assert_eq!(report.memo_size, 4);
    assert_eq!(report.egraph_nodes, 104);
    assert_eq!(report.egraph_classes, 4);
    assert_eq!(report.rebuilds, 2 + 3 + 4);
    assert_eq!(report.search_time, Duration::from_nanos(33));
    assert_eq!(report.apply_time, Duration::from_nanos(63));
    assert_eq!(report.rebuild_time, Duration::from_nanos(93));
    assert_eq!(report.total_time, Duration::from_nanos(123));
}
