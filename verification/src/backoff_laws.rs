//! What holds of the back-off scheduler as a whole.
use vstd::arithmetic::power2::{lemma2_to64, lemma_pow2_unfold, pow2};
use vstd::prelude::*;
use vstd::set_lib::{lemma_int_range, lemma_len_subset, lemma_map_size, set_int_range};

use crate::backoff::{BackoffView, LocalBackoffScheduler, LocalRuleStats};
use crate::index_map::{distinct, law_lookup_after_put, law_put_keeps_order};
use crate::scheduler::asks;

verus! {

/// Shifting by one more doubles, where nothing is lost.
proof fn lemma_shift_doubles(x: usize, k: usize)
    requires
        k + 1 < usize::BITS,
        2 * (x << k) <= usize::MAX,
    ensures
        (x << ((k + 1) as usize)) == 2 * (x << k),
{
    let next = (k + 1) as usize;
    let y = x << k;
    let twice = (2 * y) as usize;
    assert(x << next == twice) by (bit_vector)
        requires
            next == k + 1,
            next < usize::BITS,
            y == x << k,
            twice == 2 * y,
    ;
}

/// Shifting by nothing changes nothing.
proof fn lemma_shift_by_zero(x: usize)
    ensures
        x << 0usize == x,
{
    assert(x << 0usize == x) by (bit_vector);
}

/// A shift multiplies by a power of two, where nothing is lost.
pub proof fn lemma_shift_is_power(x: usize, k: usize)
    requires
        k < usize::BITS,
        x * pow2(k as nat) <= usize::MAX,
    ensures
        x << k == x * pow2(k as nat),
    decreases k,
{
    if k == 0 {
        lemma_shift_by_zero(x);
        lemma2_to64();
        assert(x * 1 == x);
    } else {
        let below = (k - 1) as usize;
        lemma_pow2_unfold(k as nat);
        let p = pow2(below as nat) as int;
        assert(x * (2 * p) == 2 * (x * p)) by (nonlinear_arith);
        assert(0 <= x * p) by (nonlinear_arith)
            requires
                0 <= x,
                0 <= p,
        ;
        lemma_shift_is_power(x, below);
        lemma_shift_doubles(x, below);
    }
}

/// The back-off is exponential: after `n` bans a rule may have its match limit times two
/// to the `n` matches, and its next ban lasts its ban length times two to the `n`
/// iterations, as long as each fits in a machine word.
pub proof fn law_back_off_is_exponential(stats: LocalRuleStats)
    requires
        stats.times_banned < usize::BITS,
    ensures
        stats.match_limit * pow2(stats.times_banned as nat) <= usize::MAX
            ==> stats.spec_threshold() == stats.match_limit * pow2(stats.times_banned as nat),
        stats.ban_length * pow2(stats.times_banned as nat) <= usize::MAX
            ==> stats.spec_next_ban() == stats.ban_length * pow2(stats.times_banned as nat),
{
    if stats.match_limit * pow2(stats.times_banned as nat) <= usize::MAX {
        lemma_shift_is_power(stats.match_limit, stats.times_banned);
    }
    if stats.ban_length * pow2(stats.times_banned as nat) <= usize::MAX {
        lemma_shift_is_power(stats.ban_length, stats.times_banned);
    }
}

/// A rule that was never banned has the limit and the length that it was given.
pub proof fn law_first_ban_is_as_configured(stats: LocalRuleStats)
    requires
        stats.times_banned == 0,
    ensures
        stats.spec_threshold() == stats.match_limit,
        stats.spec_next_ban() == stats.ban_length,
{
    lemma_shift_by_zero(stats.match_limit);
    lemma_shift_by_zero(stats.ban_length);
}

/// Each ban doubles the number of matches that a rule may have and the length of its
/// next ban, as long as both fit in a machine word.
pub proof fn law_ban_doubles_limit_and_length(
    stats: LocalRuleStats,
    iteration: usize,
    total: nat,
)
    requires
        stats.exceeded_by(total),
        stats.times_banned + 1 < usize::BITS,
    ensures
        2 * stats.spec_threshold() <= usize::MAX ==> stats.settled(
            iteration,
            total,
        ).spec_threshold() == 2 * stats.spec_threshold(),
        2 * stats.spec_next_ban() <= usize::MAX ==> stats.settled(
            iteration,
            total,
        ).spec_next_ban() == 2 * stats.spec_next_ban(),
{
    if 2 * stats.spec_threshold() <= usize::MAX {
        lemma_shift_doubles(stats.match_limit, stats.times_banned);
    }
    if 2 * stats.spec_next_ban() <= usize::MAX {
        lemma_shift_doubles(stats.ban_length, stats.times_banned);
    }
}

/// A rule that gets banned in `iteration` stays banned for exactly the length of the
/// ban, counted from that iteration.
pub proof fn law_ban_lasts_its_length(
    stats: LocalRuleStats,
    iteration: usize,
    total: nat,
    later: usize,
)
    requires
        stats.exceeded_by(total),
        !stats.overflows(iteration, total),
    ensures
        later < stats.settled(iteration, total).banned_until <==> later < iteration
            + stats.spec_next_ban(),
{
}

/// A rule without a match limit that was never banned is not banned by any number of
/// matches that a machine word holds, and stays such a rule.
pub proof fn law_unlimited_rule_is_never_banned(
    stats: LocalRuleStats,
    iteration: usize,
    total: nat,
)
    requires
        stats.match_limit == usize::MAX,
        stats.times_banned == 0,
        total <= usize::MAX,
    ensures
        !stats.exceeded_by(total),
        stats.settled(iteration, total).match_limit == usize::MAX,
        stats.settled(iteration, total).times_banned == 0,
        stats.settled(iteration, total).banned_until == stats.banned_until,
{
    lemma_shift_by_zero(stats.match_limit);
}

/// What is remembered of a rule is what was last said of it, and says nothing of any
/// other rule.
pub proof fn law_rules_are_kept_apart(
    scheduler: BackoffView,
    name: Seq<char>,
    stats: LocalRuleStats,
    other: Seq<char>,
)
    ensures
        scheduler.with_stats(name, stats).stats_of(name) == stats,
        other != name ==> scheduler.with_stats(name, stats).stats_of(other) == scheduler.stats_of(
            other,
        ),
{
    law_lookup_after_put(scheduler.stats, name, stats, other);
}

/// Looking a rule up makes the scheduler remember it, but changes nothing of what it
/// says of any rule.
pub proof fn law_looking_up_changes_no_rule(
    scheduler: BackoffView,
    name: Seq<char>,
    other: Seq<char>,
)
    ensures
        scheduler.with_stats(name, scheduler.stats_of(name)).stats_of(other)
            == scheduler.stats_of(other),
{
    law_lookup_after_put(scheduler.stats, name, scheduler.stats_of(name), other);
}

/// The defaults are for rules that were not seen yet: a rule that was seen keeps what it
/// has.
pub proof fn law_defaults_leave_seen_rules(
    scheduler: BackoffView,
    limit: usize,
    ban_length: usize,
    name: Seq<char>,
    stats: LocalRuleStats,
)
    ensures
        (BackoffView {
            default_match_limit: limit,
            default_ban_length: ban_length,
            ..scheduler.with_stats(name, stats)
        }).stats_of(name) == stats,
{
    law_lookup_after_put(scheduler.stats, name, stats, name);
}

/// No rule is ever remembered twice: neither remembering a rule nor ending bans earlier
/// makes a name occur a second time.
pub proof fn law_no_rule_is_remembered_twice(
    scheduler: BackoffView,
    name: Seq<char>,
    stats: LocalRuleStats,
    iteration: usize,
    soonest: usize,
)
    requires
        distinct(scheduler.stats),
    ensures
        distinct(scheduler.with_stats(name, stats).stats),
        distinct(scheduler.fast_forwarded(iteration, soonest).stats),
{
    law_put_keeps_order(scheduler.stats, name, stats);
    let after = scheduler.fast_forwarded(iteration, soonest).stats;
    assert forall|i: int, j: int| 0 <= i < j < after.len() implies #[trigger] after[i].0
        != #[trigger] after[j].0 by {
        assert(after[i].0 == scheduler.stats[i].0);
        assert(after[j].0 == scheduler.stats[j].0);
    }
}

/// Ending bans earlier frees some rule that was banned, bans none that was free, and
/// shortens every ban by the same number of iterations.
pub proof fn law_fast_forward_frees_a_rule(
    scheduler: BackoffView,
    iteration: usize,
    soonest: usize,
)
    requires
        scheduler.ends_soonest(iteration, soonest),
    ensures
        exists|at: int|
            0 <= at < scheduler.stats.len() && scheduler.bans(iteration, at)
                && !(#[trigger] scheduler.fast_forwarded(iteration, soonest).bans(iteration, at)),
        forall|at: int|
            0 <= at < scheduler.stats.len()
                && #[trigger] scheduler.fast_forwarded(iteration, soonest).bans(iteration, at)
                ==> scheduler.bans(iteration, at),
        forall|at: int|
            0 <= at < scheduler.stats.len() && #[trigger] scheduler.bans(iteration, at) ==> {
                let until = scheduler.fast_forwarded(iteration, soonest).stats[at].1.banned_until;
                until >= iteration && scheduler.stats[at].1.banned_until - until == soonest
                    - iteration
            },
{
    let after = scheduler.fast_forwarded(iteration, soonest);
    let at = choose|at: int|
        0 <= at < scheduler.stats.len() && #[trigger] scheduler.bans(iteration, at)
            && scheduler.stats[at].1.banned_until == soonest;
    assert(!after.bans(iteration, at));
}

/// There are finitely many ban ends, and none exactly when no rule is banned.
proof fn lemma_ban_ends(scheduler: BackoffView, iteration: usize)
    ensures
        scheduler.ban_ends(iteration).finite(),
        scheduler.ban_ends(iteration).len() == 0 <==> !scheduler.bans_any(iteration),
{
    let ends = scheduler.ban_ends(iteration);
    lemma_int_range(0, usize::MAX + 1);
    assert(ends.subset_of(set_int_range(0, usize::MAX + 1)));
    lemma_len_subset(ends, set_int_range(0, usize::MAX + 1));
    if scheduler.bans_any(iteration) {
        let at = choose|at: int|
            0 <= at < scheduler.stats.len() && #[trigger] scheduler.bans(iteration, at);
        assert(ends.contains(scheduler.stats[at].1.banned_until as int));
        if ends.len() == 0 {
            assert(ends =~= Set::empty());
        }
    } else {
        assert(ends =~= Set::empty());
    }
}

/// Ending bans earlier leaves one ban end less.
pub proof fn law_fast_forward_takes_one_ban_end(
    scheduler: BackoffView,
    iteration: usize,
    soonest: usize,
)
    requires
        scheduler.ends_soonest(iteration, soonest),
    ensures
        scheduler.ban_ends(iteration).len() > 0,
        scheduler.fast_forwarded(iteration, soonest).ban_ends(iteration).len()
            == scheduler.ban_ends(iteration).len() - 1,
{
    let after = scheduler.fast_forwarded(iteration, soonest);
    let ends = scheduler.ban_ends(iteration);
    let later = ends.remove(soonest as int);
    let shift = |end: int| end - (soonest - iteration);
    lemma_ban_ends(scheduler, iteration);
    assert(ends.contains(soonest as int)) by {
        let at = choose|at: int|
            0 <= at < scheduler.stats.len() && #[trigger] scheduler.bans(iteration, at)
                && scheduler.stats[at].1.banned_until == soonest;
        assert(scheduler.bans(iteration, at));
    }
    assert(after.ban_ends(iteration) =~= later.map(shift)) by {
        assert forall|end: int| #[trigger]
            after.ban_ends(iteration).contains(end) implies later.map(shift).contains(end) by {
            let at = choose|at: int|
                0 <= at < after.stats.len() && #[trigger] after.bans(iteration, at)
                    && after.stats[at].1.banned_until == end;
            assert(scheduler.bans(iteration, at));
            let old = scheduler.stats[at].1.banned_until as int;
            assert(later.contains(old));
            assert(shift(old) == end);
        }
        assert forall|end: int| #[trigger]
            later.map(shift).contains(end) implies after.ban_ends(iteration).contains(end) by {
            let old = choose|old: int| later.contains(old) && shift(old) == end;
            let at = choose|at: int|
                0 <= at < scheduler.stats.len() && #[trigger] scheduler.bans(iteration, at)
                    && scheduler.stats[at].1.banned_until == old;
            assert(after.stats[at].1.banned_until == end);
            assert(after.bans(iteration, at));
        }
    }
    lemma_map_size(later, after.ban_ends(iteration), shift);
}

/// A scheduler was asked again and again, after the same iteration and with nothing in
/// between, whether the run may stop, and gave these answers.
pub open spec fn asked_in_turn(
    states: Seq<LocalBackoffScheduler>,
    iteration: usize,
    answers: Seq<bool>,
) -> bool {
    &&& states.len() == answers.len() + 1
    &&& forall|k: int|
        0 <= k < answers.len() ==> asks(states[k], iteration, states[k + 1], #[trigger] answers[k])
}

/// Asked again and again after one iteration, the scheduler answers no once for each
/// distinct ban end, and yes from then on.
pub proof fn law_can_stop_after_each_ban_end(
    states: Seq<LocalBackoffScheduler>,
    iteration: usize,
    answers: Seq<bool>,
    k: int,
)
    requires
        asked_in_turn(states, iteration, answers),
        0 <= k < answers.len(),
    ensures
        answers[k] <==> k >= states[0]@.ban_ends(iteration).len(),
{
    lemma_ban_ends_left(states, iteration, answers, k);
    lemma_ban_ends(states[k]@, iteration);
    assert(asks(states[k], iteration, states[k + 1], answers[k]));
}

/// How many ban ends are left after `k` questions.
proof fn lemma_ban_ends_left(
    states: Seq<LocalBackoffScheduler>,
    iteration: usize,
    answers: Seq<bool>,
    k: int,
)
    requires
        asked_in_turn(states, iteration, answers),
        0 <= k <= answers.len(),
    ensures
        states[k]@.ban_ends(iteration).len() == if k
            <= states[0]@.ban_ends(iteration).len() {
            states[0]@.ban_ends(iteration).len() - k
        } else {
            0
        },
    decreases k,
{
    if k > 0 {
        let before = states[k - 1]@;
        lemma_ban_ends_left(states, iteration, answers, k - 1);
        lemma_ban_ends(before, iteration);
        assert(asks(states[k - 1], iteration, states[k], answers[k - 1]));
        if !answers[k - 1] {
            let soonest = choose|soonest: usize|
                #[trigger] before.ends_soonest(iteration, soonest) && states[k]@
                    == before.fast_forwarded(iteration, soonest);
            law_fast_forward_takes_one_ban_end(before, iteration, soonest);
        }
    }
}

/// Asked again and again after one iteration, the scheduler frees its rules in the order
/// in which their bans were to end: as long as the rule whose ban ended earlier is banned
/// so is the other, and their bans keep their distance.
pub proof fn law_rules_are_freed_in_order(
    states: Seq<LocalBackoffScheduler>,
    iteration: usize,
    answers: Seq<bool>,
    k: int,
    first: int,
    second: int,
)
    requires
        asked_in_turn(states, iteration, answers),
        0 <= k <= answers.len(),
        0 <= first < states[0]@.stats.len(),
        0 <= second < states[0]@.stats.len(),
        states[0]@.bans(iteration, first),
        states[0]@.stats[first].1.banned_until <= states[0]@.stats[second].1.banned_until,
    ensures
        states[k]@.stats.len() == states[0]@.stats.len(),
        states[k]@.bans(iteration, first) ==> {
            &&& states[k]@.bans(iteration, second)
            &&& states[k]@.stats[second].1.banned_until - states[k]@.stats[first].1.banned_until
                == states[0]@.stats[second].1.banned_until
                - states[0]@.stats[first].1.banned_until
        },
    decreases k,
{
    if k > 0 {
        let before = states[k - 1]@;
        law_rules_are_freed_in_order(states, iteration, answers, k - 1, first, second);
        assert(asks(states[k - 1], iteration, states[k], answers[k - 1]));
        if !answers[k - 1] {
            let soonest = choose|soonest: usize|
                #[trigger] before.ends_soonest(iteration, soonest) && states[k]@
                    == before.fast_forwarded(iteration, soonest);
            law_fast_forward_frees_a_rule(before, iteration, soonest);
            assert(before.bans(iteration, first) || !states[k]@.bans(iteration, first));
        }
    }
}

/// Setting a rule's match limit changes nothing else of it, and nothing of any other rule.
pub proof fn law_match_limit_is_set_alone(
    scheduler: BackoffView,
    name: Seq<char>,
    limit: usize,
    other: Seq<char>,
)
    ensures
        scheduler.with_match_limit(name, limit).stats_of(name) == (LocalRuleStats {
            match_limit: limit,
            ..scheduler.stats_of(name)
        }),
        other != name ==> scheduler.with_match_limit(name, limit).stats_of(other)
            == scheduler.stats_of(other),
        scheduler.with_match_limit(name, limit).default_match_limit
            == scheduler.default_match_limit,
        scheduler.with_match_limit(name, limit).default_ban_length
            == scheduler.default_ban_length,
{
    law_rules_are_kept_apart(
        scheduler,
        name,
        LocalRuleStats { match_limit: limit, ..scheduler.stats_of(name) },
        other,
    );
}

} // verus!
