//! What holds of the back-off scheduler's searches, whatever a rule has been through.
use vstd::arithmetic::div_mod::{
    lemma_mod_add_multiples_vanish, lemma_mul_mod_noop_right, lemma_small_mod,
};
use vstd::arithmetic::power2::{lemma2_to64, lemma2_to64_rest, lemma_pow2_unfold, pow2};
use vstd::prelude::*;

use crate::backoff::{BackoffView, LocalBackoffScheduler, LocalRuleStats};
use crate::backoff_laws::lemma_shift_is_power;
use crate::egraph::{EGraph, Id, Rewrite, SearchMatches, count_substs, total_substs};
use crate::index_map::lemma_find_is;
use crate::outcome::{RunnerResult, StopReason};
use crate::scheduler::{LocalRewriteScheduler, LocalStopPolicy};
use crate::symbol::Symbol;

verus! {

/// How many values a machine word has.
pub open spec fn word() -> int {
    usize::MAX + 1
}

/// What is left of `x * 2^k` in a machine word.
pub open spec fn doubled(x: usize, k: usize) -> int {
    (x * pow2(k as nat)) % word()
}

/// One more than `limit`, as far as a machine word goes.
pub open spec fn one_more(limit: int) -> usize {
    if limit >= usize::MAX {
        usize::MAX
    } else {
        (limit + 1) as usize
    }
}

/// Shifting by one more doubles, and loses what does not fit in a machine word.
proof fn lemma_shift_once_more(x: usize, k: usize)
    requires
        k + 1 < usize::BITS,
    ensures
        (x << ((k + 1) as usize)) == (2 * (x << k)) % word(),
{
    let next = (k + 1) as usize;
    let y = x << k;
    let z = x << next;
    let last = (usize::BITS - 1) as usize;
    let half = 1usize << last;
    assert(y < half ==> z == 2 * y) by (bit_vector)
        requires
            next == k + 1,
            next < usize::BITS,
            last == usize::BITS - 1,
            y == x << k,
            z == x << next,
            half == 1usize << last,
    ;
    assert(y >= half ==> z == 2 * (y - half)) by (bit_vector)
        requires
            next == k + 1,
            next < usize::BITS,
            last == usize::BITS - 1,
            y == x << k,
            z == x << next,
            half == 1usize << last,
    ;
    lemma_half_word(half);
    if y < half {
        lemma_small_mod((2 * y) as nat, word() as nat);
    } else {
        assert(2 * y == 2 * (y - half) + word());
        lemma_mod_add_multiples_vanish(2 * (y - half), word());
        lemma_small_mod((2 * (y - half)) as nat, word() as nat);
    }
}

/// The highest bit of a machine word is worth half of its values.
proof fn lemma_half_word(half: usize)
    requires
        half == 1usize << ((usize::BITS - 1) as usize),
    ensures
        2 * half == word(),
{
    lemma2_to64();
    lemma2_to64_rest();
    let last = (usize::BITS - 1) as usize;
    assert(1 * pow2(last as nat) == pow2(last as nat));
    lemma_shift_is_power(1, last);
}

/// A shift multiplies by a power of two, and loses what does not fit in a machine word.
proof fn lemma_shift_wraps(x: usize, k: usize)
    requires
        k < usize::BITS,
    ensures
        x << k == doubled(x, k),
    decreases k,
{
    if k == 0 {
        assert(x << 0usize == x) by (bit_vector);
        lemma2_to64();
        assert(x * 1 == x);
        lemma_small_mod(x as nat, word() as nat);
    } else {
        let below = (k - 1) as usize;
        let p = pow2(below as nat) as int;
        lemma_pow2_unfold(k as nat);
        lemma_shift_wraps(x, below);
        lemma_shift_once_more(x, below);
        lemma_mul_mod_noop_right(2, x * p, word());
        assert(2 * (x * p) == x * (2 * p)) by (nonlinear_arith);
    }
}

/// Matches are counted over all e-classes: none in an empty list, the substitutions of the
/// only e-class in a list of one, and in two lists together what is in each.
pub proof fn law_matches_are_counted_together<T>(
    a: &Vec<SearchMatches<T>>,
    b: &Vec<SearchMatches<T>>,
    both: &Vec<SearchMatches<T>>,
    in_a: u128,
    in_b: u128,
    in_both: u128,
)
    requires
        call_ensures(count_substs::<T>, (a,), in_a),
        call_ensures(count_substs::<T>, (b,), in_b),
        call_ensures(count_substs::<T>, (both,), in_both),
        both@ == a@ + b@,
    ensures
        in_both == in_a + in_b,
        a@.len() == 0 ==> in_a == 0,
        a@.len() == 1 ==> in_a == a@[0].substs@.len(),
{
    law_total_is_a_sum(a@, b@);
}

/// The total of two lists of matches together is the sum of their totals; that of one
/// e-class is the number of its substitutions.
pub proof fn law_total_is_a_sum<T>(a: Seq<SearchMatches<T>>, b: Seq<SearchMatches<T>>)
    ensures
        total_substs(a + b) == total_substs(a) + total_substs(b),
        a.len() == 0 ==> total_substs(a) == 0,
        a.len() == 1 ==> total_substs(a) == a[0].substs@.len(),
    decreases b.len(),
{
    if b.len() == 0 {
        assert(a + b =~= a);
    } else {
        law_total_is_a_sum(a, b.drop_last());
        assert((a + b).drop_last() =~= a + b.drop_last());
        assert((a + b).last() == b.last());
    }
    if a.len() == 1 {
        assert(a.drop_last() =~= Seq::<SearchMatches<T>>::empty());
        assert(total_substs(Seq::<SearchMatches<T>>::empty()) == 0);
    }
}

/// A rule may have as many matches as its limit, doubled for each of its bans.
pub proof fn law_limit_doubles_with_each_ban(stats: &LocalRuleStats, t: usize)
    requires
        stats.times_banned < usize::BITS,
        call_ensures(LocalRuleStats::threshold, (stats,), t),
    ensures
        t == doubled(stats.match_limit, stats.times_banned),
{
    lemma_shift_wraps(stats.match_limit, stats.times_banned);
}

/// What a rule found is returned as it is, however often the rule was banned, where it is no
/// more than its limit, doubled for each ban; the rule then counts one search more. Where it
/// is more, nothing is returned, and the rule is banned from this iteration on for its ban
/// length, doubled for each ban before. Only where a count or the end of the ban would not
/// fit in a machine word there is an overflow, and the rule stays as it is.
pub proof fn law_matches_are_kept_up_to_the_limit<T>(
    stats: &mut LocalRuleStats,
    iteration: usize,
    found: Vec<SearchMatches<T>>,
    out: RunnerResult<Vec<SearchMatches<T>>>,
)
    requires
        old(stats).times_banned < usize::BITS,
        call_ensures(LocalRuleStats::judge::<T>, (stats, iteration, found), out),
    ensures
        final(stats).match_limit == old(stats).match_limit,
        final(stats).ban_length == old(stats).ban_length,
        total_substs(found@) <= doubled(old(stats).match_limit, old(stats).times_banned) ==> {
            &&& final(stats).times_banned == old(stats).times_banned
            &&& final(stats).banned_until == old(stats).banned_until
            &&& old(stats).times_applied < usize::MAX ==> out == Ok::<_, StopReason>(found)
                && final(stats).times_applied == old(stats).times_applied + 1
            &&& old(stats).times_applied == usize::MAX ==> out == Err::<Vec<SearchMatches<T>>, _>(
                StopReason::Overflow,
            ) && final(stats).times_applied == old(stats).times_applied
        },
        total_substs(found@) > doubled(old(stats).match_limit, old(stats).times_banned) ==> {
            let length = doubled(old(stats).ban_length, old(stats).times_banned);
            &&& final(stats).times_applied == old(stats).times_applied
            &&& iteration + length <= usize::MAX ==> {
                &&& out matches Ok(kept) && kept@.len() == 0
                &&& final(stats).times_banned == old(stats).times_banned + 1
                &&& final(stats).banned_until == iteration + length
            }
            &&& iteration + length > usize::MAX ==> {
                &&& out == Err::<Vec<SearchMatches<T>>, _>(StopReason::Overflow)
                &&& final(stats).times_banned == old(stats).times_banned
                &&& final(stats).banned_until == old(stats).banned_until
            }
        },
{
    lemma_shift_wraps(old(stats).match_limit, old(stats).times_banned);
    lemma_shift_wraps(old(stats).ban_length, old(stats).times_banned);
}

/// Recording a search keeps it exactly where it found no more than the limit, doubled for
/// each ban.
pub proof fn law_settling_counts_or_bans(
    stats: &mut LocalRuleStats,
    iteration: usize,
    total: u128,
    keep: bool,
)
    requires
        old(stats).times_banned < usize::BITS,
        call_ensures(LocalRuleStats::settle, (stats, iteration, total), keep),
        old(stats).times_applied < usize::MAX,
        iteration + doubled(old(stats).ban_length, old(stats).times_banned) <= usize::MAX,
    ensures
        keep <==> total <= doubled(old(stats).match_limit, old(stats).times_banned),
        final(stats).match_limit == old(stats).match_limit,
        final(stats).ban_length == old(stats).ban_length,
        keep ==> final(stats).times_applied == old(stats).times_applied + 1
            && final(stats).times_banned == old(stats).times_banned && final(stats).banned_until
            == old(stats).banned_until,
        !keep ==> final(stats).times_applied == old(stats).times_applied
            && final(stats).times_banned == old(stats).times_banned + 1
            && final(stats).banned_until == iteration + doubled(
            old(stats).ban_length,
            old(stats).times_banned,
        ),
{
    lemma_shift_wraps(old(stats).match_limit, old(stats).times_banned);
    lemma_shift_wraps(old(stats).ban_length, old(stats).times_banned);
}

/// The scheduler remembers `stats` of the rule `name`, whose place in its list is `at`: the
/// first entry of that name, or a new one with the defaults at the end.
pub open spec fn remembers(
    scheduler: BackoffView,
    name: Seq<char>,
    at: int,
    stats: LocalRuleStats,
) -> bool {
    &&& 0 <= at <= scheduler.stats.len()
    &&& forall|i: int| 0 <= i < at ==> (#[trigger] scheduler.stats[i]).0 != name
    &&& at < scheduler.stats.len() ==> scheduler.stats[at] == (name, stats)
    &&& at == scheduler.stats.len() ==> stats.times_applied == 0 && stats.banned_until == 0
        && stats.times_banned == 0 && stats.match_limit == scheduler.default_match_limit
        && stats.ban_length == scheduler.default_ban_length
}

/// All that changes of the scheduler is that it remembers `stats` of the rule at `at`.
pub open spec fn differs_at(
    before: BackoffView,
    after: BackoffView,
    name: Seq<char>,
    at: int,
    stats: LocalRuleStats,
) -> bool {
    &&& after.default_match_limit == before.default_match_limit
    &&& after.default_ban_length == before.default_ban_length
    &&& after.stats.len() == if at < before.stats.len() {
        before.stats.len()
    } else {
        before.stats.len() + 1
    }
    &&& after.stats[at] == (name, stats)
    &&& forall|i: int|
        0 <= i < before.stats.len() && i != at ==> #[trigger] after.stats[i] == before.stats[i]
}

/// What the scheduler remembers of a rule is what its list says.
proof fn lemma_remembered(
    scheduler: BackoffView,
    name: Seq<char>,
    at: int,
    stats: LocalRuleStats,
    next: LocalRuleStats,
)
    requires
        remembers(scheduler, name, at, stats),
    ensures
        scheduler.stats_of(name) == stats,
        differs_at(scheduler, scheduler.with_stats(name, next), name, at, next),
{
    lemma_find_is(scheduler.stats, name, at);
}

/// Looking a rule up gives what is remembered of it, or the defaults where it was not seen;
/// what is written there is remembered of this rule and of no other.
pub proof fn law_rule_is_remembered(
    s: &mut LocalBackoffScheduler,
    name: Symbol,
    stats: &mut LocalRuleStats,
    at: int,
    before: LocalRuleStats,
)
    requires
        call_ensures(LocalBackoffScheduler::rule_stats, (s, name), stats),
        remembers(old(s)@, name@, at, before),
    ensures
        *old(stats) == before,
        differs_at(old(s)@, final(s)@, name@, at, *final(stats)),
{
    lemma_remembered(old(s)@, name@, at, before, *final(stats));
}

/// A rule that is banned is not searched: it finds nothing, and stays as it is. A rule that
/// is not is searched from the scope for one match more than it may have, and what it finds
/// is returned as it is where it has no more than that, however often it was banned; else
/// it returns nothing and is banned. No other rule changes.
pub proof fn law_search_keeps_or_bans<G: EGraph>(
    s: &mut LocalBackoffScheduler,
    iteration: usize,
    egraph: &G,
    rewrite: &Rewrite<G>,
    local_scope: &Vec<Id>,
    out: RunnerResult<Vec<SearchMatches<G::Subst>>>,
    at: int,
    before: LocalRuleStats,
)
    requires
        call_ensures(
            <LocalBackoffScheduler as LocalRewriteScheduler<G>>::search_rewrite_local,
            (s, iteration, egraph, rewrite, local_scope),
            out,
        ),
        remembers(old(s)@, rewrite.name@, at, before),
    ensures
        iteration < before.banned_until ==> {
            &&& out matches Ok(kept) && kept@.len() == 0
            &&& differs_at(old(s)@, final(s)@, rewrite.name@, at, before)
        },
        iteration >= before.banned_until && before.times_banned >= usize::BITS ==> {
            &&& out == Err::<Vec<SearchMatches<G::Subst>>, _>(StopReason::Overflow)
            &&& differs_at(old(s)@, final(s)@, rewrite.name@, at, before)
        },
        iteration >= before.banned_until && before.times_banned < usize::BITS ==> {
            let limit = doubled(before.match_limit, before.times_banned);
            let length = doubled(before.ban_length, before.times_banned);
            let asked = one_more(limit);
            exists|found: Vec<SearchMatches<G::Subst>>| {
            &&& #[trigger] call_ensures(
                G::search_local_with_limit,
                (egraph, &rewrite.rule, local_scope, asked),
                found,
            )
            &&& total_substs(found@) <= limit && before.times_applied < usize::MAX ==> {
                &&& out == Ok::<_, StopReason>(found)
                &&& differs_at(
                    old(s)@,
                    final(s)@,
                    rewrite.name@,
                    at,
                    (LocalRuleStats {
                        times_applied: (before.times_applied + 1) as usize,
                        ..before
                    }),
                )
            }
            &&& total_substs(found@) > limit && iteration + length <= usize::MAX ==> {
                &&& out matches Ok(kept) && kept@.len() == 0
                &&& differs_at(
                    old(s)@,
                    final(s)@,
                    rewrite.name@,
                    at,
                    (LocalRuleStats {
                        times_banned: (before.times_banned + 1) as usize,
                        banned_until: (iteration + length) as usize,
                        ..before
                    }),
                )
            }
            &&& (total_substs(found@) <= limit && before.times_applied == usize::MAX)
                || (total_substs(found@) > limit && iteration + length > usize::MAX) ==> {
                &&& out == Err::<Vec<SearchMatches<G::Subst>>, _>(StopReason::Overflow)
                &&& differs_at(old(s)@, final(s)@, rewrite.name@, at, before)
            }
            }
        },
{
    let name = rewrite.name@;
    lemma_remembered(old(s)@, name, at, before, before);
    if iteration >= before.banned_until && before.times_banned < usize::BITS {
        lemma_shift_wraps(before.match_limit, before.times_banned);
        lemma_shift_wraps(before.ban_length, before.times_banned);
        let (found, after) = choose|
            found: Vec<SearchMatches<G::Subst>>,
            after: LocalRuleStats,
        |
            {
                &&& call_ensures(
                    G::search_local_with_limit,
                    (
                        egraph,
                        &rewrite.rule,
                        local_scope,
                        before.spec_threshold().saturating_add(1),
                    ),
                    found,
                )
                &&& #[trigger] before.judges(iteration, found, after, out)
                &&& final(s)@ == old(s)@.with_stats(name, after)
            };
        lemma_remembered(old(s)@, name, at, before, after);
        let limit = doubled(before.match_limit, before.times_banned);
        let asked = one_more(limit);
        assert(before.spec_threshold() == limit);
        assert(before.spec_threshold().saturating_add(1) == asked);
        assert(call_ensures(
            G::search_local_with_limit,
            (egraph, &rewrite.rule, local_scope, asked),
            found,
        ));
    }
}

/// A run may stop exactly when no rule is banned past the iteration, and then nothing
/// changes. Else every ban that lasts past it ends earlier by what is left of the first that
/// ends, which ends with that; nothing else of any rule changes.
pub proof fn law_bans_end_earlier_together(
    s: &mut LocalBackoffScheduler,
    iteration: usize,
    stop: bool,
)
    requires
        call_ensures(<LocalBackoffScheduler as LocalStopPolicy>::can_stop, (s, iteration), stop),
    ensures
        stop <==> forall|at: int|
            0 <= at < old(s)@.stats.len() ==> (#[trigger] old(s)@.stats[at]).1.banned_until
                <= iteration,
        stop ==> final(s)@ == old(s)@,
        final(s)@.default_match_limit == old(s)@.default_match_limit,
        final(s)@.default_ban_length == old(s)@.default_ban_length,
        final(s)@.stats.len() == old(s)@.stats.len(),
        forall|at: int|
            0 <= at < old(s)@.stats.len() ==> {
                let before = old(s)@.stats[at];
                let after = #[trigger] final(s)@.stats[at];
                &&& after.0 == before.0
                &&& after.1.times_applied == before.1.times_applied
                &&& after.1.times_banned == before.1.times_banned
                &&& after.1.match_limit == before.1.match_limit
                &&& after.1.ban_length == before.1.ban_length
                &&& before.1.banned_until <= iteration ==> after.1.banned_until
                    == before.1.banned_until
            },
        !stop ==> exists|first: int|
            {
                &&& 0 <= first < old(s)@.stats.len()
                &&& (#[trigger] old(s)@.stats[first]).1.banned_until > iteration
                &&& final(s)@.stats[first].1.banned_until == iteration
                &&& forall|at: int|
                    0 <= at < old(s)@.stats.len() && old(s)@.stats[at].1.banned_until > iteration
                        ==> old(s)@.stats[at].1.banned_until - (
                    #[trigger] final(s)@.stats[at]).1.banned_until
                        == old(s)@.stats[first].1.banned_until - iteration
            },
{
    let before = old(s)@;
    if stop {
        assert forall|at: int| 0 <= at < before.stats.len() implies (
        #[trigger] before.stats[at]).1.banned_until <= iteration by {
            assert(!before.bans(iteration, at));
        }
    } else {
        let soonest = choose|soonest: usize|
            #[trigger] before.ends_soonest(iteration, soonest) && final(s)@
                == before.fast_forwarded(iteration, soonest);
        let first = choose|at: int|
            0 <= at < before.stats.len() && #[trigger] before.bans(iteration, at)
                && before.stats[at].1.banned_until == soonest;
        assert(before.stats[first].1.banned_until > iteration);
        assert forall|at: int|
            0 <= at < before.stats.len() && before.stats[at].1.banned_until > iteration implies before.stats[at].1.banned_until
            - (#[trigger] final(s)@.stats[at]).1.banned_until == before.stats[first].1.banned_until
            - iteration by {
            assert(before.bans(iteration, at));
        }
    }
}

/// The scheduler starts with a match limit of 1,000, a ban length of 5 and no rule seen.
pub proof fn law_back_off_scheduler_starts_empty(s: LocalBackoffScheduler)
    requires
        call_ensures(<LocalBackoffScheduler as Default>::default, (), s),
    ensures
        s@.default_match_limit == 1_000,
        s@.default_ban_length == 5,
        s@.stats.len() == 0,
{
}

/// The defaults that are set are those of the rules that were not seen yet, and change no
/// other thing.
pub proof fn law_defaults_are_set_apart(
    s: LocalBackoffScheduler,
    limit: usize,
    limited: LocalBackoffScheduler,
    length: usize,
    lengthened: LocalBackoffScheduler,
)
    requires
        call_ensures(
            LocalBackoffScheduler::with_initial_match_limit,
            (s, limit),
            limited,
        ),
        call_ensures(LocalBackoffScheduler::with_ban_length, (limited, length), lengthened),
    ensures
        limited@.default_match_limit == limit,
        limited@.default_ban_length == s@.default_ban_length,
        limited@.stats == s@.stats,
        lengthened@.default_match_limit == limit,
        lengthened@.default_ban_length == length,
        lengthened@.stats == s@.stats,
{
}

/// What is set for a rule is remembered of that rule, and changes nothing else of it or of
/// the scheduler.
pub proof fn law_rules_are_configured_apart<N: Into<Symbol>>(
    s: LocalBackoffScheduler,
    name: N,
    text: Seq<char>,
    at: int,
    before: LocalRuleStats,
    amount: usize,
    free: LocalBackoffScheduler,
    limited: LocalBackoffScheduler,
    lengthened: LocalBackoffScheduler,
)
    requires
        forall|symbol: Symbol| #[trigger]
            call_ensures(<N as Into<Symbol>>::into, (name,), symbol) ==> symbol@ == text,
        remembers(s@, text, at, before),
        call_ensures(LocalBackoffScheduler::do_not_ban::<N>, (s, name), free),
        call_ensures(LocalBackoffScheduler::rule_match_limit::<N>, (s, name, amount), limited),
        call_ensures(LocalBackoffScheduler::rule_ban_length::<N>, (s, name, amount), lengthened),
    ensures
        differs_at(
            s@,
            free@,
            text,
            at,
            (LocalRuleStats { match_limit: usize::MAX, ..before }),
        ),
        differs_at(s@, limited@, text, at, (LocalRuleStats { match_limit: amount, ..before })),
        differs_at(s@, lengthened@, text, at, (LocalRuleStats { ban_length: amount, ..before })),
{
    lemma_remembered(s@, text, at, before, LocalRuleStats { match_limit: usize::MAX, ..before });
    lemma_remembered(s@, text, at, before, LocalRuleStats { match_limit: amount, ..before });
    lemma_remembered(s@, text, at, before, LocalRuleStats { ban_length: amount, ..before });
}

} // verus!
