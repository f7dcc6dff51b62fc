//! What holds of applying the rules of an iteration.
use vstd::prelude::*;

use crate::apply::{
    Applied, ApplyStep, apply_chain, apply_matches, apply_result, egraph_at, matches_applied,
    scheduler_at, step_result, tally_at, tally_of, tally_overflows, tally_rule,
};
use crate::egraph::{EGraph, Rewrite, SearchMatches};
use crate::index_map::{IndexMap, distinct, find, law_lookup_after_put, lemma_find, lemma_find_is};
use crate::limits::{LimitReading, LocalRunnerLimits, reads};
use crate::outcome::{RunnerResult, StopReason};
use crate::scheduler::{LocalRewriteScheduler, applies};
use crate::symbol::Symbol;
use crate::time::passes_since;

verus! {

/// How often the rules of a name were applied together, where the first rules were applied
/// `counts` times, one after the other.
pub open spec fn applications<G: EGraph>(
    rules: Seq<Rewrite<G>>,
    counts: Seq<usize>,
    name: Seq<char>,
) -> nat
    decreases counts.len(),
{
    if counts.len() == 0 {
        0
    } else if rules[counts.len() - 1].name@ == name {
        applications(rules, counts.drop_last(), name) + counts.last() as nat
    } else {
        applications(rules, counts.drop_last(), name)
    }
}

/// Applications of different rules of a name add up, and other rules do not count: a rule
/// that was applied is counted, and no count makes the sum smaller.
pub proof fn law_applications_add_up<G: EGraph>(
    rules: Seq<Rewrite<G>>,
    counts: Seq<usize>,
    count: usize,
    name: Seq<char>,
)
    ensures
        applications(rules, Seq::<usize>::empty(), name) == 0,
        rules[counts.len() as int].name@ == name ==> applications(
            rules,
            counts.push(count),
            name,
        ) == applications(rules, counts, name) + count,
        rules[counts.len() as int].name@ != name ==> applications(
            rules,
            counts.push(count),
            name,
        ) == applications(rules, counts, name),
{
    assert(counts.push(count).drop_last() =~= counts);
}

/// Rules of a name were applied exactly when some rule of it was.
pub proof fn law_applications_come_from_rules<G: EGraph>(
    rules: Seq<Rewrite<G>>,
    counts: Seq<usize>,
    name: Seq<char>,
)
    ensures
        applications(rules, counts, name) > 0 <==> exists|k: int|
            0 <= k < counts.len() && (#[trigger] rules[k]).name@ == name && counts[k] > 0,
    decreases counts.len(),
{
    if counts.len() > 0 {
        let front = counts.drop_last();
        let last = counts.len() - 1;
        law_applications_come_from_rules(rules, front, name);
        if applications(rules, front, name) > 0 {
            let k = choose|k: int|
                0 <= k < front.len() && (#[trigger] rules[k]).name@ == name && front[k] > 0;
            assert(rules[k].name@ == name && counts[k] > 0);
        }
        if exists|k: int|
            0 <= k < counts.len() && (#[trigger] rules[k]).name@ == name && counts[k] > 0 {
            let k = choose|k: int|
                0 <= k < counts.len() && (#[trigger] rules[k]).name@ == name && counts[k] > 0;
            if k < last {
                assert(rules[k].name@ == name && front[k] > 0);
            }
        }
        if rules[last].name@ == name && counts[last] > 0 {
            assert(rules[last].name@ == name && counts[last] > 0);
        }
    }
}

/// A rule of the name `first` was applied before any of the name `second` was.
pub open spec fn applied_before<G: EGraph>(
    rules: Seq<Rewrite<G>>,
    counts: Seq<usize>,
    first: Seq<char>,
    second: Seq<char>,
) -> bool {
    exists|p: int|
        {
            &&& 0 <= p < counts.len()
            &&& (#[trigger] rules[p]).name@ == first
            &&& counts[p] > 0
            &&& applications(rules, counts.take(p), second) == 0
        }
}

/// The counts of the first `k` steps.
pub open spec fn counts_of<G, S>(steps: Seq<ApplyStep<G, S>>, k: int) -> Seq<usize> {
    Seq::new(k as nat, |j: int| steps[j].count)
}

/// What the tally holds before step `k`, where nothing overflowed up to it.
proof fn lemma_tally_adds_up<G: EGraph, S>(
    rules: Seq<Rewrite<G>>,
    steps: Seq<ApplyStep<G, S>>,
    k: int,
)
    requires
        0 <= k <= steps.len(),
        k <= rules.len(),
        forall|j: int|
            0 <= j < k ==> !tally_overflows(
                #[trigger] tally_at(rules, steps, j),
                rules[j].name@,
                steps[j].count,
            ),
    ensures
        distinct(tally_at(rules, steps, k)),
        forall|name: Seq<char>| #[trigger]
            applications(rules, counts_of(steps, k), name) == tally_of(
                tally_at(rules, steps, k),
                name,
            ),
        forall|i: int|
            0 <= i < tally_at(rules, steps, k).len() ==> (#[trigger] tally_at(
                rules,
                steps,
                k,
            )[i]).1 > 0,
        forall|i: int, j: int|
            0 <= i < j < tally_at(rules, steps, k).len() ==> applied_before(
                rules,
                counts_of(steps, k),
                (#[trigger] tally_at(rules, steps, k)[i]).0,
                (#[trigger] tally_at(rules, steps, k)[j]).0,
            ),
    decreases k,
{
    let now = tally_at(rules, steps, k);
    let counts = counts_of(steps, k);
    if k == 0 {
        assert forall|name: Seq<char>| #[trigger] applications(rules, counts, name) == tally_of(
            now,
            name,
        ) by {
            lemma_find(now, name);
        }
    } else {
        let before = tally_at(rules, steps, k - 1);
        let name = rules[k - 1].name@;
        let count = steps[k - 1].count;
        lemma_tally_adds_up(rules, steps, k - 1);
        assert(!tally_overflows(tally_at(rules, steps, k - 1), name, count));
        assert(counts.drop_last() =~= counts_of(steps, k - 1));
        let sum = (tally_of(before, name) + count) as usize;
        lemma_find(before, name);
        assert forall|other: Seq<char>| #[trigger] applications(rules, counts, other) == tally_of(
            now,
            other,
        ) by {
            assert(applications(rules, counts_of(steps, k - 1), other) == tally_of(before, other));
            law_lookup_after_put(before, name, sum, other);
        }
        assert forall|i: int, j: int| 0 <= i < j < now.len() implies applied_before(
            rules,
            counts,
            (#[trigger] now[i]).0,
            (#[trigger] now[j]).0,
        ) by {
            let old_counts = counts_of(steps, k - 1);
            let first = now[i].0;
            let second = now[j].0;
            assert(before[i].0 == first);
            if j < before.len() {
                assert(before[j].0 == second);
                assert(applied_before(rules, old_counts, first, second));
                let p = choose|p: int|
                    {
                        &&& 0 <= p < old_counts.len()
                        &&& (#[trigger] rules[p]).name@ == first
                        &&& old_counts[p] > 0
                        &&& applications(rules, old_counts.take(p), second) == 0
                    };
                assert(old_counts.take(p) =~= counts.take(p));
                assert(rules[p].name@ == first && counts[p] > 0);
            } else {
                lemma_find_is(before, first, i);
                assert(applications(rules, old_counts, first) == tally_of(before, first));
                law_applications_come_from_rules(rules, old_counts, first);
                let p = choose|p: int|
                    0 <= p < old_counts.len() && (#[trigger] rules[p]).name@ == first
                        && old_counts[p] > 0;
                assert(applications(rules, old_counts, second) == tally_of(before, second));
                law_applications_come_from_rules(rules, old_counts, second);
                law_applications_come_from_rules(rules, counts.take(p), second);
                if applications(rules, counts.take(p), second) > 0 {
                    let q = choose|q: int|
                        0 <= q < counts.take(p).len() && (#[trigger] rules[q]).name@ == second
                            && counts.take(p)[q] > 0;
                    assert(rules[q].name@ == second && old_counts[q] > 0);
                }
                assert(rules[p].name@ == first && counts[p] > 0);
            }
        }
    }
}

/// What the entries of a tally are that holds the sums.
proof fn lemma_tally_entries<G: EGraph>(
    rules: Seq<Rewrite<G>>,
    kept: Seq<usize>,
    tally: Seq<(Seq<char>, usize)>,
)
    requires
        distinct(tally),
        forall|name: Seq<char>| #[trigger]
            applications(rules, kept, name) == tally_of(tally, name),
    ensures
        forall|i: int|
            0 <= i < tally.len() ==> (#[trigger] tally[i]).1 == applications(
                rules,
                kept,
                tally[i].0,
            ),
        forall|name: Seq<char>|
            (#[trigger] applications(rules, kept, name)) > 0 ==> exists|i: int|
                0 <= i < tally.len() && (#[trigger] tally[i]).0 == name,
        forall|name: Seq<char>| (#[trigger] applications(rules, kept, name)) <= usize::MAX,
{
    assert forall|i: int| 0 <= i < tally.len() implies (#[trigger] tally[i]).1 == applications(
        rules,
        kept,
        tally[i].0,
    ) by {
        lemma_find_is(tally, tally[i].0, i);
        assert(applications(rules, kept, tally[i].0) == tally_of(tally, tally[i].0));
    }
    assert forall|name: Seq<char>| (#[trigger] applications(rules, kept, name)) > 0 implies exists|
        i: int,
    | 0 <= i < tally.len() && (#[trigger] tally[i]).0 == name by {
        lemma_find(tally, name);
        assert(tally[find(tally, name)].0 == name);
    }
}

/// What was met while the rules of an iteration were applied.
pub struct ApplyCourse<G, S> {
    /// The scheduler before each rule, and after the last.
    pub schedulers: Seq<S>,
    /// The e-graph before each rule, and after the last.
    pub egraphs: Seq<G>,
    /// How often each rule was applied.
    pub counts: Seq<usize>,
    /// The counts that were recorded: all, but for one that overflows a sum.
    pub kept: Seq<usize>,
    /// What the limits were held against after each rule.
    pub readings: Seq<LimitReading>,
}

impl<G: EGraph, S: LocalRewriteScheduler<G>> ApplyCourse<G, S> {
    /// Each rule was applied at what was found for it, on what the one before left.
    #[verifier::opaque]
    pub open spec fn applies_in_turn(
        self,
        iteration: usize,
        rules: Seq<Rewrite<G>>,
        matches: Seq<Vec<SearchMatches<G::Subst>>>,
        scheduler: S,
        egraph: G,
        after: Applied<G, S>,
    ) -> bool {
        &&& self.schedulers.len() == self.counts.len() + 1
        &&& self.egraphs.len() == self.counts.len() + 1
        &&& self.readings.len() == self.counts.len()
        &&& self.counts.len() <= rules.len()
        &&& self.counts.len() <= matches.len()
        &&& self.schedulers[0] == scheduler
        &&& self.egraphs[0] == egraph
        &&& self.schedulers.last() == after.scheduler
        &&& self.egraphs.last() == after.egraph
        &&& forall|k: int|
            0 <= k < self.counts.len() ==> applies(
                self.schedulers[k],
                iteration,
                self.egraphs[k],
                rules[k],
                matches[k],
                self.schedulers[k + 1],
                self.egraphs[k + 1],
                #[trigger] self.counts[k],
            )
    }

    /// The limits were read after each rule, and all but the last were within them.
    #[verifier::opaque]
    pub open spec fn keeps_within(
        self,
        limits: LocalRunnerLimits,
        iteration: usize,
        after: Applied<G, S>,
    ) -> bool {
        &&& forall|k: int|
            0 <= k < self.counts.len() && (k < self.counts.len() - 1 || after.result != Err::<(), _>(
                StopReason::Overflow,
            )) ==> {
                &&& limits.start_time is Some
                &&& passes_since(
                    limits.start_time->0,
                    (#[trigger] self.readings[k]).elapsed,
                )
                &&& call_ensures(G::total_size, (&self.egraphs[k + 1],), self.readings[k].size)
            }
        &&& forall|k: int|
            0 <= k < self.counts.len() && (k < self.counts.len() - 1 || after.result is Ok) ==> {
                &&& (#[trigger] self.readings[k]).elapsed.nanos <= limits.time_limit.nanos
                &&& self.readings[k].size <= limits.node_limit
                &&& iteration < limits.iter_limit
            }
    }

    /// All rules were applied, or the last one for the reason that is given.
    #[verifier::opaque]
    pub open spec fn ends_so(
        self,
        limits: LocalRunnerLimits,
        iteration: usize,
        rules: Seq<Rewrite<G>>,
        matches: Seq<Vec<SearchMatches<G::Subst>>>,
        after: Applied<G, S>,
    ) -> bool {
        &&& after.result is Ok ==> self.counts.len() == rules.len() || self.counts.len() == matches.len()
        &&& after.result matches Err(reason) ==> self.counts.len() > 0 && match reason {
            StopReason::Overflow => applications(
                rules,
                self.counts,
                rules[self.counts.len() - 1].name@,
            ) > usize::MAX,
            StopReason::TimeLimit(span) => span == self.readings.last().elapsed && span.nanos
                > limits.time_limit.nanos,
            StopReason::NodeLimit(size) => size == self.readings.last().size && size
                > limits.node_limit && self.readings.last().elapsed.nanos <= limits.time_limit.nanos,
            StopReason::IterationLimit(n) => n == iteration && n >= limits.iter_limit
                && self.readings.last().size <= limits.node_limit
                && self.readings.last().elapsed.nanos <= limits.time_limit.nanos,
            _ => false,
        }
    }

    /// What was applied is what is recorded, in order.
    #[verifier::opaque]
    pub open spec fn is_recorded(
        self,
        rules: Seq<Rewrite<G>>,
        after: Applied<G, S>,
    ) -> bool {
        &&& after.result != Err::<(), _>(StopReason::Overflow) ==> forall|name: Seq<char>|
            (#[trigger] applications(rules, self.counts, name)) <= usize::MAX
        &&& after.result != Err::<(), _>(StopReason::Overflow) ==> self.kept == self.counts
        &&& after.result == Err::<(), _>(StopReason::Overflow) ==> self.kept == self.counts.drop_last()
        &&& forall|i: int|
            0 <= i < after.tally@.len() ==> (#[trigger] after.tally@[i]).1 > 0
                && after.tally@[i].1 == applications(rules, self.kept, after.tally@[i].0)
        &&& forall|name: Seq<char>|
            (#[trigger] applications(rules, self.kept, name)) > 0 ==> exists|i: int|
                0 <= i < after.tally@.len() && (#[trigger] after.tally@[i]).0 == name
        &&& forall|i: int, j: int|
            0 <= i < j < after.tally@.len() ==> (#[trigger] after.tally@[i]).0 != (
            #[trigger] after.tally@[j]).0
        &&& forall|i: int, j: int|
            0 <= i < j < after.tally@.len() ==> applied_before(
                rules,
                self.kept,
                (#[trigger] after.tally@[i]).0,
                (#[trigger] after.tally@[j]).0,
            )
    }

    /// Applying the rules at `matches` took this course and ended in `after`.
    pub open spec fn leads_to(
        self,
        limits: LocalRunnerLimits,
        iteration: usize,
        rules: Seq<Rewrite<G>>,
        matches: Seq<Vec<SearchMatches<G::Subst>>>,
        scheduler: S,
        egraph: G,
        after: Applied<G, S>,
    ) -> bool {
        &&& self.applies_in_turn(iteration, rules, matches, scheduler, egraph, after)
        &&& self.keeps_within(limits, iteration, after)
        &&& self.ends_so(limits, iteration, rules, matches, after)
        &&& self.is_recorded(rules, after)
    }
}

/// The course that the steps took, of which the first `m` are recorded.
spec fn as_course<G: EGraph, S>(
    scheduler: S,
    egraph: G,
    steps: Seq<ApplyStep<G, S>>,
    m: int,
) -> ApplyCourse<G, S> {
    let n = steps.len();
    ApplyCourse {
        schedulers: Seq::new(n + 1, |k: int| scheduler_at(scheduler, steps, k)),
        egraphs: Seq::new(n + 1, |k: int| egraph_at(egraph, steps, k)),
        counts: counts_of(steps, n as int),
        kept: counts_of(steps, m),
        readings: Seq::new(n, |k: int| steps[k].reading),
    }
}

/// The rules are applied one after the other, each at what was found for it and on what the
/// one before left, and the limits are read after each. Where none is passed and no sum
/// overflows, all rules are applied that were searched; else the first of them that passes
/// one ends it, with that reason. Every rule is recorded that was applied, with how often
/// the rules of its name were together, in the order in which they were.
pub proof fn law_rules_are_applied_in_turn<G: EGraph, S: LocalRewriteScheduler<G>>(
    limits: LocalRunnerLimits,
    iteration: usize,
    rules: Seq<Rewrite<G>>,
    matches: Seq<Vec<SearchMatches<G::Subst>>>,
    scheduler: S,
    egraph: G,
    after: Applied<G, S>,
) -> (c: ApplyCourse<G, S>)
    requires
        matches_applied(limits, iteration, rules, matches, scheduler, egraph, after),
    ensures
        c.applies_in_turn(iteration, rules, matches, scheduler, egraph, after),
        c.keeps_within(limits, iteration, after),
        c.ends_so(limits, iteration, rules, matches, after),
        c.is_recorded(rules, after),
{
    let steps = choose|steps: Seq<ApplyStep<G, S>>|
        {
            &&& #[trigger] apply_chain(limits, iteration, rules, matches, scheduler, egraph, steps)
            &&& apply_result(limits, iteration, rules, matches.len(), steps, after.result)
            &&& after.scheduler == scheduler_at(scheduler, steps, steps.len() as int)
            &&& after.egraph == egraph_at(egraph, steps, steps.len() as int)
            &&& after.tally@ == tally_at(rules, steps, steps.len() as int)
        };
    let m = if after.result == Err::<(), _>(StopReason::Overflow) {
        steps.len() - 1
    } else {
        steps.len() as int
    };
    lemma_steps_fit(limits, iteration, rules, matches, scheduler, egraph, steps, after.result);
    lemma_applies_in_turn(limits, iteration, rules, matches, scheduler, egraph, steps, after, m);
    lemma_keeps_within(limits, iteration, rules, matches, scheduler, egraph, steps, after, m);
    lemma_ends_so(limits, iteration, rules, matches, scheduler, egraph, steps, after, m);
    lemma_is_recorded(limits, iteration, rules, matches, scheduler, egraph, steps, after, m);
    as_course(scheduler, egraph, steps, m)
}

/// No step but the last can overflow a sum, and that one only where it is the reason.
proof fn lemma_steps_fit<G: EGraph, S: LocalRewriteScheduler<G>>(
    limits: LocalRunnerLimits,
    iteration: usize,
    rules: Seq<Rewrite<G>>,
    matches: Seq<Vec<SearchMatches<G::Subst>>>,
    scheduler: S,
    egraph: G,
    steps: Seq<ApplyStep<G, S>>,
    result: RunnerResult<()>,
)
    requires
        apply_result(limits, iteration, rules, matches.len(), steps, result),
    ensures
        forall|k: int|
            0 <= k < steps.len() && (k < steps.len() - 1 || result != Err::<(), _>(
                StopReason::Overflow,
            )) ==> !tally_overflows(
                #[trigger] tally_at(rules, steps, k),
                rules[k].name@,
                steps[k].count,
            ),
        result == Err::<(), _>(StopReason::Overflow) ==> steps.len() > 0 && tally_overflows(
            tally_at(rules, steps, steps.len() - 1),
            rules[steps.len() - 1].name@,
            steps[steps.len() - 1].count,
        ),
{
    let n = steps.len() as int;
    assert forall|k: int|
        0 <= k < n && (k < n - 1 || result != Err::<(), _>(
            StopReason::Overflow,
        )) implies !tally_overflows(
        #[trigger] tally_at(rules, steps, k),
        rules[k].name@,
        steps[k].count,
    ) by {
        if k < n - 1 || result is Ok {
            assert(step_result(limits, iteration, rules, steps, k) is Ok);
        }
    }
    if result == Err::<(), _>(StopReason::Overflow) {
        assert(step_result(limits, iteration, rules, steps, n - 1) == result);
    }
}

/// Each step was applied on what the one before left.
proof fn lemma_applies_in_turn<G: EGraph, S: LocalRewriteScheduler<G>>(
    limits: LocalRunnerLimits,
    iteration: usize,
    rules: Seq<Rewrite<G>>,
    matches: Seq<Vec<SearchMatches<G::Subst>>>,
    scheduler: S,
    egraph: G,
    steps: Seq<ApplyStep<G, S>>,
    after: Applied<G, S>,
    m: int,
)
    requires
        apply_chain(limits, iteration, rules, matches, scheduler, egraph, steps),
        after.scheduler == scheduler_at(scheduler, steps, steps.len() as int),
        after.egraph == egraph_at(egraph, steps, steps.len() as int),
    ensures
        as_course(scheduler, egraph, steps, m).applies_in_turn(
            iteration,
            rules,
            matches,
            scheduler,
            egraph,
            after,
        ),
{
    let c = as_course(scheduler, egraph, steps, m);
    assert forall|k: int| 0 <= k < c.counts.len() implies applies(
        c.schedulers[k],
        iteration,
        c.egraphs[k],
        rules[k],
        matches[k],
        c.schedulers[k + 1],
        c.egraphs[k + 1],
        #[trigger] c.counts[k],
    ) by {
        assert(steps[k].count == c.counts[k]);
    }
    reveal(ApplyCourse::applies_in_turn);
}

/// The limits were read after each step.
proof fn lemma_keeps_within<G: EGraph, S: LocalRewriteScheduler<G>>(
    limits: LocalRunnerLimits,
    iteration: usize,
    rules: Seq<Rewrite<G>>,
    matches: Seq<Vec<SearchMatches<G::Subst>>>,
    scheduler: S,
    egraph: G,
    steps: Seq<ApplyStep<G, S>>,
    after: Applied<G, S>,
    m: int,
)
    requires
        apply_chain(limits, iteration, rules, matches, scheduler, egraph, steps),
        apply_result(limits, iteration, rules, matches.len(), steps, after.result),
    ensures
        as_course(scheduler, egraph, steps, m).keeps_within(limits, iteration, after),
{
    let c = as_course(scheduler, egraph, steps, m);
    let n = steps.len() as int;
    lemma_steps_fit(limits, iteration, rules, matches, scheduler, egraph, steps, after.result);
    assert forall|k: int|
        0 <= k < c.counts.len() && (k < c.counts.len() - 1 || after.result != Err::<(), _>(
            StopReason::Overflow,
        )) implies {
        &&& limits.start_time is Some
        &&& passes_since(limits.start_time->0, (#[trigger] c.readings[k]).elapsed)
        &&& call_ensures(G::total_size, (&c.egraphs[k + 1],), c.readings[k].size)
    } by {
        assert(!tally_overflows(tally_at(rules, steps, k), rules[k].name@, steps[k].count));
        assert(reads(limits, steps[k].egraph, steps[k].reading));
        assert(c.egraphs[k + 1] == steps[k].egraph);
    }
    assert forall|k: int|
        0 <= k < c.counts.len() && (k < c.counts.len() - 1 || after.result is Ok) implies {
        &&& (#[trigger] c.readings[k]).elapsed.nanos <= limits.time_limit.nanos
        &&& c.readings[k].size <= limits.node_limit
        &&& iteration < limits.iter_limit
    } by {
        assert(step_result(limits, iteration, rules, steps, k) is Ok);
    }
    reveal(ApplyCourse::keeps_within);
}

/// How the steps end.
proof fn lemma_ends_so<G: EGraph, S: LocalRewriteScheduler<G>>(
    limits: LocalRunnerLimits,
    iteration: usize,
    rules: Seq<Rewrite<G>>,
    matches: Seq<Vec<SearchMatches<G::Subst>>>,
    scheduler: S,
    egraph: G,
    steps: Seq<ApplyStep<G, S>>,
    after: Applied<G, S>,
    m: int,
)
    requires
        apply_chain(limits, iteration, rules, matches, scheduler, egraph, steps),
        apply_result(limits, iteration, rules, matches.len(), steps, after.result),
    ensures
        as_course(scheduler, egraph, steps, m).ends_so(limits, iteration, rules, matches, after),
{
    let c = as_course(scheduler, egraph, steps, m);
    let n = steps.len() as int;
    lemma_steps_fit(limits, iteration, rules, matches, scheduler, egraph, steps, after.result);
    if after.result is Err {
        assert(step_result(limits, iteration, rules, steps, n - 1) == after.result);
        assert(c.readings.last() == steps[n - 1].reading);
        if after.result == Err::<(), _>(StopReason::Overflow) {
            let name = rules[n - 1].name@;
            lemma_tally_adds_up(rules, steps, n - 1);
            assert(c.counts.drop_last() =~= counts_of(steps, n - 1));
            assert(applications(rules, counts_of(steps, n - 1), name) == tally_of(
                tally_at(rules, steps, n - 1),
                name,
            ));
            assert(c.counts.last() == steps[n - 1].count);
        }
    }
    reveal(ApplyCourse::ends_so);
}

/// What the steps are recorded as.
proof fn lemma_is_recorded<G: EGraph, S: LocalRewriteScheduler<G>>(
    limits: LocalRunnerLimits,
    iteration: usize,
    rules: Seq<Rewrite<G>>,
    matches: Seq<Vec<SearchMatches<G::Subst>>>,
    scheduler: S,
    egraph: G,
    steps: Seq<ApplyStep<G, S>>,
    after: Applied<G, S>,
    m: int,
)
    requires
        apply_chain(limits, iteration, rules, matches, scheduler, egraph, steps),
        apply_result(limits, iteration, rules, matches.len(), steps, after.result),
        after.tally@ == tally_at(rules, steps, steps.len() as int),
        after.result == Err::<(), _>(StopReason::Overflow) ==> m == steps.len() - 1,
        after.result != Err::<(), _>(StopReason::Overflow) ==> m == steps.len(),
    ensures
        as_course(scheduler, egraph, steps, m).is_recorded(rules, after),
{
    let c = as_course(scheduler, egraph, steps, m);
    let n = steps.len() as int;
    lemma_steps_fit(limits, iteration, rules, matches, scheduler, egraph, steps, after.result);
    lemma_tally_adds_up(rules, steps, m);
    if m < n {
        assert(c.counts.drop_last() =~= c.kept);
    }
    assert(after.tally@ == tally_at(rules, steps, m));
    lemma_tally_entries(rules, c.kept, after.tally@);
    reveal(ApplyCourse::is_recorded);
}

/// Where the matches of the rules were applied without a reason to stop, each rule was
/// applied that was searched, none of them twice: there is a count for each.
pub proof fn law_every_searched_rule_is_applied<G: EGraph, S: LocalRewriteScheduler<G>>(
    limits: &LocalRunnerLimits,
    iteration: usize,
    rules: &Vec<Rewrite<G>>,
    matches: Vec<Vec<SearchMatches<G::Subst>>>,
    scheduler: S,
    egraph: G,
    after: Applied<G, S>,
) -> (c: ApplyCourse<G, S>)
    requires
        call_ensures(
            apply_matches::<G, S>,
            (limits, iteration, rules, matches, scheduler, egraph),
            after,
        ),
        after.result is Ok,
        matches@.len() == rules@.len(),
    ensures
        c.counts.len() == rules@.len(),
        c.schedulers[0] == scheduler,
        c.egraphs[0] == egraph,
        c.schedulers[rules@.len() as int] == after.scheduler,
        c.egraphs[rules@.len() as int] == after.egraph,
        forall|k: int|
            0 <= k < rules@.len() ==> applies(
                c.schedulers[k],
                iteration,
                c.egraphs[k],
                rules@[k],
                matches@[k],
                c.schedulers[k + 1],
                c.egraphs[k + 1],
                #[trigger] c.counts[k],
            ),
        forall|k: int|
            0 <= k < rules@.len() && #[trigger] c.counts[k] > 0 ==> exists|i: int|
                0 <= i < after.tally@.len() && (#[trigger] after.tally@[i]).0 == rules@[k].name@
                    && after.tally@[i].1 >= c.counts[k],
{
    let c = law_rules_are_applied_in_turn(
        *limits,
        iteration,
        rules@,
        matches@,
        scheduler,
        egraph,
        after,
    );
    reveal(ApplyCourse::applies_in_turn);
    reveal(ApplyCourse::ends_so);
    reveal(ApplyCourse::is_recorded);
    assert forall|k: int| 0 <= k < rules@.len() && #[trigger] c.counts[k] > 0 implies exists|
        i: int,
    |
        0 <= i < after.tally@.len() && (#[trigger] after.tally@[i]).0 == rules@[k].name@
            && after.tally@[i].1 >= c.counts[k] by {
        let name = rules@[k].name@;
        lemma_count_is_counted(rules@, c.counts, k);
        assert(applications(rules@, c.kept, name) > 0);
        let i = choose|i: int| 0 <= i < after.tally@.len() && (#[trigger] after.tally@[i]).0 == name;
        assert(after.tally@[i].1 == applications(rules@, c.kept, name));
    }
    c
}

/// What a rule was applied is part of the sum for its name.
proof fn lemma_count_is_counted<G: EGraph>(rules: Seq<Rewrite<G>>, counts: Seq<usize>, k: int)
    requires
        0 <= k < counts.len(),
    ensures
        applications(rules, counts, rules[k].name@) >= counts[k],
    decreases counts.len(),
{
    if k < counts.len() - 1 {
        lemma_count_is_counted(rules, counts.drop_last(), k);
    }
}

/// Where a rule passes a limit on size, no rule behind it is applied, and that is the reason.
pub proof fn law_rule_past_the_size_is_the_last<G: EGraph, S: LocalRewriteScheduler<G>>(
    limits: &LocalRunnerLimits,
    iteration: usize,
    rules: &Vec<Rewrite<G>>,
    matches: Vec<Vec<SearchMatches<G::Subst>>>,
    scheduler: S,
    egraph: G,
    after: Applied<G, S>,
)
    requires
        call_ensures(
            apply_matches::<G, S>,
            (limits, iteration, rules, matches, scheduler, egraph),
            after,
        ),
        rules@.len() > 0,
        matches@.len() > 0,
        forall|g: G, size: usize| #[trigger]
            call_ensures(G::total_size, (&g,), size) ==> size > limits.node_limit,
    ensures
        after.result matches Err(reason) && (reason is NodeLimit || reason is TimeLimit
            || reason is Overflow),
        exists|n: usize|
            #[trigger] applies(
                scheduler,
                iteration,
                egraph,
                rules@[0],
                matches@[0],
                after.scheduler,
                after.egraph,
                n,
            ),
{
    let c = law_rules_are_applied_in_turn(
        *limits,
        iteration,
        rules@,
        matches@,
        scheduler,
        egraph,
        after,
    );
    reveal(ApplyCourse::applies_in_turn);
    reveal(ApplyCourse::keeps_within);
    reveal(ApplyCourse::ends_so);
    assert(after.result is Ok ==> c.counts.len() > 0);
    if c.counts.len() > 1 {
        assert(c.readings[0].size <= limits.node_limit);
    }
    if after.result is Ok {
        assert(c.readings[0].size <= limits.node_limit);
    }
    if after.result == Err::<(), _>(StopReason::IterationLimit(iteration)) {
        assert(c.readings[0] == c.readings.last());
    }
    assert(c.counts.len() == 1);
    assert(applies(
        c.schedulers[0],
        iteration,
        c.egraphs[0],
        rules@[0],
        matches@[0],
        c.schedulers[1],
        c.egraphs[1],
        c.counts[0],
    ));
}

/// Counting a rule adds to the entry of its name, or makes one at the end; it changes
/// nothing else. It is refused exactly where the sum would overflow, and changes nothing
/// then. A rule that was not applied makes no entry.
pub proof fn law_counting_adds_to_the_rule(
    tally: &mut IndexMap<usize>,
    name: &Symbol,
    count: usize,
    fits: bool,
    at: int,
)
    requires
        call_ensures(tally_rule, (tally, name, count), fits),
        0 <= at <= old(tally)@.len(),
        at < old(tally)@.len() ==> old(tally)@[at].0 == name@,
        forall|i: int| 0 <= i < at ==> (#[trigger] old(tally)@[i]).0 != name@,
    ensures
        !fits ==> final(tally)@ == old(tally)@ && at < old(tally)@.len() && old(tally)@[at].1 + count
            > usize::MAX,
        count == 0 ==> fits && final(tally)@ == old(tally)@,
        fits && count > 0 && at < old(tally)@.len() ==> {
            &&& old(tally)@[at].1 + count <= usize::MAX
            &&& final(tally)@ == old(tally)@.update(
                at,
                (name@, (old(tally)@[at].1 + count) as usize),
            )
        },
        count > 0 && at == old(tally)@.len() ==> fits && final(tally)@ == old(tally)@.push(
            (name@, count),
        ),
{
    lemma_find_is(old(tally)@, name@, at);
}

} // verus!
