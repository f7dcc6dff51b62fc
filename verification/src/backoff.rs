//! A scheduler that bans a rule for a while when it matches too often.
use vstd::prelude::*;

use crate::egraph::{EGraph, Id, Rewrite, SearchMatches, count_substs, total_substs};
use crate::index_map::{IndexMap, lemma_find, lookup, put};
use crate::outcome::{RunnerResult, StopReason};
use crate::scheduler::{LocalRewriteScheduler, LocalStopPolicy};
use crate::symbol::Symbol;

verus! {

/// What is remembered of one rule.
#[derive(Clone, Copy, Debug, PartialEq, Eq, Structural)]
pub struct LocalRuleStats {
    /// How many searches of it were kept.
    pub times_applied: usize,
    /// The first iteration in which it is searched again.
    pub banned_until: usize,
    /// How often it was banned.
    pub times_banned: usize,
    /// How many matches it may have before it was ever banned.
    pub match_limit: usize,
    /// For how many iterations it is banned the first time.
    pub ban_length: usize,
}

impl LocalRuleStats {
    /// How many matches it may have now: the limit, doubled for each ban.
    pub open spec fn spec_threshold(self) -> usize {
        self.match_limit << self.times_banned
    }

    /// For how many iterations it would be banned now: the length, doubled for each
    /// ban.
    pub open spec fn spec_next_ban(self) -> usize {
        self.ban_length << self.times_banned
    }

    /// A search in `iteration` that finds `total` matches gets it banned.
    pub open spec fn exceeded_by(self, total: nat) -> bool {
        total > self.spec_threshold()
    }

    /// Recording such a search would pass what a machine word holds.
    pub open spec fn overflows(self, iteration: usize, total: nat) -> bool {
        if self.exceeded_by(total) {
            iteration + self.spec_next_ban() > usize::MAX
        } else {
            self.times_applied == usize::MAX
        }
    }

    /// The rule once a search in `iteration` that found `total` matches was recorded.
    pub open spec fn settled(self, iteration: usize, total: nat) -> LocalRuleStats {
        if self.exceeded_by(total) {
            LocalRuleStats {
                times_banned: (self.times_banned + 1) as usize,
                banned_until: (iteration + self.spec_next_ban()) as usize,
                ..self
            }
        } else {
            LocalRuleStats { times_applied: (self.times_applied + 1) as usize, ..self }
        }
    }

    /// What becomes of the matches that a search in `iteration` found, and of the rule.
    pub open spec fn judges<T>(
        self,
        iteration: usize,
        found: Vec<SearchMatches<T>>,
        after: LocalRuleStats,
        out: RunnerResult<Vec<SearchMatches<T>>>,
    ) -> bool {
        let total = total_substs(found@);
        if self.overflows(iteration, total) {
            &&& out == Err::<Vec<SearchMatches<T>>, _>(StopReason::Overflow)
            &&& after == self
        } else if self.exceeded_by(total) {
            &&& out matches Ok(kept) && kept@.len() == 0
            &&& after == self.settled(iteration, total)
        } else {
            &&& out == Ok::<_, StopReason>(found)
            &&& after == self.settled(iteration, total)
        }
    }

    /// How many matches the rule may have now.
    pub fn threshold(&self) -> (t: usize)
        requires
            self.times_banned < usize::BITS,
        ensures
            t == self.spec_threshold(),
    {
        self.match_limit << self.times_banned
    }

    /// Records a search in `iteration` that found `total` matches, and says whether
    /// they are kept. Where there were too many the rule is banned.
    pub fn settle(&mut self, iteration: usize, total: u128) -> (keep: bool)
        requires
            old(self).times_banned < usize::BITS,
            !old(self).overflows(iteration, total as nat),
        ensures
            keep == !old(self).exceeded_by(total as nat),
            *final(self) == old(self).settled(iteration, total as nat),
    {
        if total > self.threshold() as u128 {
            let ban_length: usize = self.ban_length << self.times_banned;
            self.times_banned = self.times_banned + 1;
            self.banned_until = iteration + ban_length;
            false
        } else {
            self.times_applied = self.times_applied + 1;
            true
        }
    }

    /// Decides on the matches that a search in `iteration` found: keeps them, or bans
    /// the rule where there are too many.
    pub fn judge<T>(&mut self, iteration: usize, found: Vec<SearchMatches<T>>) -> (out:
        RunnerResult<Vec<SearchMatches<T>>>)
        requires
            old(self).times_banned < usize::BITS,
        ensures
            old(self).judges(iteration, found, *final(self), out),
    {
        let total: u128 = count_substs(&found);
        let overflow: bool = if total > self.threshold() as u128 {
            iteration > usize::MAX - (self.ban_length << self.times_banned)
        } else {
            self.times_applied == usize::MAX
        };
        if overflow {
            Err(StopReason::Overflow)
        } else if self.settle(iteration, total) {
            Ok(found)
        } else {
            Ok(Vec::new())
        }
    }
}

/// A back-off scheduler, seen as a value.
pub struct BackoffView {
    /// The match limit of a rule that was not seen yet.
    pub default_match_limit: usize,
    /// The ban length of a rule that was not seen yet.
    pub default_ban_length: usize,
    /// The rules that were seen, in order.
    pub stats: Seq<(Seq<char>, LocalRuleStats)>,
}

impl BackoffView {
    /// What a rule starts with.
    pub open spec fn fresh(self) -> LocalRuleStats {
        LocalRuleStats {
            times_applied: 0,
            banned_until: 0,
            times_banned: 0,
            match_limit: self.default_match_limit,
            ban_length: self.default_ban_length,
        }
    }

    /// What is remembered of a rule.
    pub open spec fn stats_of(self, name: Seq<char>) -> LocalRuleStats {
        match lookup(self.stats, name) {
            Some(stats) => stats,
            None => self.fresh(),
        }
    }

    /// The scheduler once a rule is remembered as `stats`.
    pub open spec fn with_stats(self, name: Seq<char>, stats: LocalRuleStats) -> BackoffView {
        BackoffView { stats: put(self.stats, name, stats), ..self }
    }

    /// The scheduler once a rule has the match limit `limit`.
    pub open spec fn with_match_limit(self, name: Seq<char>, limit: usize) -> BackoffView {
        self.with_stats(name, LocalRuleStats { match_limit: limit, ..self.stats_of(name) })
    }

    /// The rule at `at` is banned after `iteration`.
    pub open spec fn bans(self, iteration: usize, at: int) -> bool {
        self.stats[at].1.banned_until > iteration
    }

    /// Some rule is banned after `iteration`.
    pub open spec fn bans_any(self, iteration: usize) -> bool {
        exists|at: int| 0 <= at < self.stats.len() && #[trigger] self.bans(iteration, at)
    }

    /// When the bans end that last past `iteration`.
    pub open spec fn ban_ends(self, iteration: usize) -> Set<int> {
        Set::new(
            |end: int|
                exists|at: int|
                    0 <= at < self.stats.len() && #[trigger] self.bans(iteration, at)
                        && self.stats[at].1.banned_until == end,
        )
    }

    /// `soonest` is when the first of the rules that are banned after `iteration` is
    /// searched again.
    pub open spec fn ends_soonest(self, iteration: usize, soonest: usize) -> bool {
        &&& exists|at: int|
            0 <= at < self.stats.len() && #[trigger] self.bans(iteration, at)
                && self.stats[at].1.banned_until == soonest
        &&& forall|at: int|
            0 <= at < self.stats.len() && #[trigger] self.bans(iteration, at) ==> soonest
                <= self.stats[at].1.banned_until
    }

    /// The scheduler once all bans that last past `iteration` end earlier, by as much
    /// as brings `soonest` down to `iteration`.
    pub open spec fn fast_forwarded(self, iteration: usize, soonest: usize) -> BackoffView {
        BackoffView {
            stats: Seq::new(
                self.stats.len(),
                |at: int|
                    if self.bans(iteration, at) {
                        (
                            self.stats[at].0,
                            LocalRuleStats {
                                banned_until: (self.stats[at].1.banned_until - (soonest
                                    - iteration)) as usize,
                                ..self.stats[at].1
                            },
                        )
                    } else {
                        self.stats[at]
                    },
            ),
            ..self
        }
    }
}

/// A scheduler that bans a rule for a while when a search finds more matches than its
/// limit, and doubles the limit and the length of the ban each time.
#[derive(Debug)]
pub struct LocalBackoffScheduler {
    default_match_limit: usize,
    default_ban_length: usize,
    stats: IndexMap<LocalRuleStats>,
}

impl View for LocalBackoffScheduler {
    type V = BackoffView;

    closed spec fn view(&self) -> BackoffView {
        BackoffView {
            default_match_limit: self.default_match_limit,
            default_ban_length: self.default_ban_length,
            stats: self.stats@,
        }
    }
}

impl Default for LocalBackoffScheduler {
    fn default() -> (scheduler: Self)
        ensures
            scheduler@ == (BackoffView {
                default_match_limit: 1_000,
                default_ban_length: 5,
                stats: Seq::empty(),
            }),
    {
        LocalBackoffScheduler {
            stats: IndexMap::new(),
            default_match_limit: 1_000,
            default_ban_length: 5,
        }
    }
}

impl LocalBackoffScheduler {
    /// Sets the match limit of the rules that were not seen yet.
    pub fn with_initial_match_limit(self, limit: usize) -> (res: Self)
        ensures
            res@ == (BackoffView { default_match_limit: limit, ..self@ }),
    {
        LocalBackoffScheduler { default_match_limit: limit, ..self }
    }

    /// Sets the length of the first ban of the rules that were not seen yet.
    pub fn with_ban_length(self, ban_length: usize) -> (res: Self)
        ensures
            res@ == (BackoffView { default_ban_length: ban_length, ..self@ }),
    {
        LocalBackoffScheduler { default_ban_length: ban_length, ..self }
    }

    /// What is remembered of a rule, to be changed in place. A rule that was not seen
    /// yet is remembered from now on.
    pub fn rule_stats(&mut self, name: Symbol) -> (stats: &mut LocalRuleStats)
        ensures
            *stats == old(self)@.stats_of(name@),
            final(self)@ == old(self)@.with_stats(name@, *final(stats)),
    {
        let at: usize = self.stats.position(&name);
        proof {
            lemma_find(self.stats@, name@);
        }
        if at == self.stats.len() {
            let fresh = LocalRuleStats {
                times_applied: 0,
                banned_until: 0,
                times_banned: 0,
                match_limit: self.default_match_limit,
                ban_length: self.default_ban_length,
            };
            self.stats.insert(name, fresh);
        }
        proof {
            let seen = self.stats@;
            assert forall|stats: LocalRuleStats|
                #[trigger] seen.update(at as int, (seen[at as int].0, stats)) == put(
                    old(self)@.stats,
                    name@,
                    stats,
                ) by {
                assert(seen.update(at as int, (seen[at as int].0, stats)) =~= put(
                    old(self)@.stats,
                    name@,
                    stats,
                ));
            }
        }
        self.stats.value_at_mut(at)
    }

    /// What is remembered of all rules that were seen, in order.
    pub fn all_stats(&self) -> (stats: &IndexMap<LocalRuleStats>)
        ensures
            stats@ == self@.stats,
    {
        &self.stats
    }

    /// Never bans a rule.
    pub fn do_not_ban<N: Into<Symbol>>(self, name: N) -> (res: Self)
        ensures
            exists|symbol: Symbol|
                #[trigger] call_ensures(<N as Into<Symbol>>::into, (name,), symbol) && res@
                    == self@.with_match_limit(symbol@, usize::MAX),
    {
        let symbol: Symbol = name.into();
        let mut scheduler = self;
        scheduler.rule_stats(symbol).match_limit = usize::MAX;
        scheduler
    }

    /// Sets the match limit of a rule.
    pub fn rule_match_limit<N: Into<Symbol>>(self, name: N, limit: usize) -> (res: Self)
        ensures
            exists|symbol: Symbol|
                #[trigger] call_ensures(<N as Into<Symbol>>::into, (name,), symbol) && res@
                    == self@.with_match_limit(symbol@, limit),
    {
        let symbol: Symbol = name.into();
        let mut scheduler = self;
        scheduler.rule_stats(symbol).match_limit = limit;
        scheduler
    }

    /// Sets the length of a rule's first ban.
    pub fn rule_ban_length<N: Into<Symbol>>(self, name: N, length: usize) -> (res: Self)
        ensures
            exists|symbol: Symbol|
                #[trigger] call_ensures(<N as Into<Symbol>>::into, (name,), symbol) && res@
                    == self@.with_stats(
                    symbol@,
                    LocalRuleStats { ban_length: length, ..self@.stats_of(symbol@) },
                ),
    {
        let symbol: Symbol = name.into();
        let mut scheduler = self;
        scheduler.rule_stats(symbol).ban_length = length;
        scheduler
    }
}

impl LocalStopPolicy for LocalBackoffScheduler {
    /// A run may stop where no rule is banned. Where some are, all bans end earlier, so
    /// that the first of them is over, and the run goes on.
    fn can_stop(&mut self, iteration: usize) -> (stop: bool)
        ensures
            stop == !old(self)@.bans_any(iteration),
            stop ==> final(self)@ == old(self)@,
            !stop ==> exists|soonest: usize|
                #[trigger] old(self)@.ends_soonest(iteration, soonest) && final(self)@
                    == old(self)@.fast_forwarded(iteration, soonest),
    {
        let ghost start = self@;
        let n: usize = self.stats.len();
        let mut soonest: Option<usize> = None;
        let mut i: usize = 0;
        while i < n
            invariant
                i <= n == self@.stats.len(),
                self@ == start,
                soonest is None ==> forall|at: int|
                    0 <= at < i ==> !#[trigger] start.bans(iteration, at),
                soonest matches Some(m) ==> {
                    &&& exists|at: int|
                        0 <= at < i && #[trigger] start.bans(iteration, at)
                            && start.stats[at].1.banned_until == m
                    &&& forall|at: int|
                        0 <= at < i && #[trigger] start.bans(iteration, at) ==> m
                            <= start.stats[at].1.banned_until
                },
            decreases n - i,
        {
            let until: usize = self.stats.value_at(i).banned_until;
            assert(start.bans(iteration, i as int) == (until > iteration));
            if until > iteration {
                soonest = match soonest {
                    Some(m) if m <= until => Some(m),
                    _ => Some(until),
                };
            }
            i = i + 1;
        }
        match soonest {
            None => true,
            Some(m) => {
                let delta: usize = m - iteration;
                assert(start.ends_soonest(iteration, m));
                let mut i: usize = 0;
                while i < n
                    invariant
                        i <= n == self@.stats.len(),
                        start.stats.len() == n,
                        self@.default_match_limit == start.default_match_limit,
                        self@.default_ban_length == start.default_ban_length,
                        start.ends_soonest(iteration, m),
                        delta == m - iteration,
                        delta >= 0,
                        forall|at: int|
                            0 <= at < i ==> #[trigger] self@.stats[at] == start.fast_forwarded(
                                iteration,
                                m,
                            ).stats[at],
                        forall|at: int|
                            i <= at < n ==> #[trigger] self@.stats[at] == start.stats[at],
                    decreases n - i,
                {
                    assert(self@.stats[i as int] == start.stats[i as int]);
                    assert(start.bans(iteration, i as int) == (
                    start.stats[i as int].1.banned_until > iteration));
                    let stats = self.stats.value_at_mut(i);
                    if stats.banned_until > iteration {
                        stats.banned_until = stats.banned_until - delta;
                    }
                    i = i + 1;
                }
                assert(self@.stats =~= start.fast_forwarded(iteration, m).stats);
                assert(self@ == start.fast_forwarded(iteration, m));
                false
            },
        }
    }
}

impl<G: EGraph> LocalRewriteScheduler<G> for LocalBackoffScheduler {
    fn search_rewrite_local(
        &mut self,
        iteration: usize,
        egraph: &G,
        rewrite: &Rewrite<G>,
        local_scope: &Vec<Id>,
    ) -> (out: RunnerResult<Vec<SearchMatches<G::Subst>>>)
        ensures
            ({
                let name = rewrite.name@;
                let before = old(self)@.stats_of(name);
                if iteration < before.banned_until {
                    &&& out matches Ok(kept) && kept@.len() == 0
                    &&& final(self)@ == old(self)@.with_stats(name, before)
                } else if before.times_banned >= usize::BITS {
                    &&& out == Err::<Vec<SearchMatches<G::Subst>>, _>(StopReason::Overflow)
                    &&& final(self)@ == old(self)@.with_stats(name, before)
                } else {
                    exists|found: Vec<SearchMatches<G::Subst>>, after: LocalRuleStats|
                        {
                            &&& call_ensures(
                                G::search_local_with_limit,
                                (
                                    egraph,
                                    &rewrite.rule,
                                    local_scope,
                                    before.spec_threshold().saturating_add(1),
                                ),
                                found,
                            )
                            &&& #[trigger] before.judges(iteration, found, after, out)
                            &&& final(self)@ == old(self)@.with_stats(name, after)
                        }
                }
            }),
    {
        let stats = self.rule_stats(rewrite.name.clone());
        if iteration < stats.banned_until {
            return Ok(Vec::new());
        }
        if stats.times_banned >= usize::BITS as usize {
            return Err(StopReason::Overflow);
        }
        let threshold: usize = stats.threshold();
        let found = egraph.search_local_with_limit(
            &rewrite.rule,
            local_scope,
            threshold.saturating_add(1),
        );
        stats.judge(iteration, found)
    }
}

} // verus!
