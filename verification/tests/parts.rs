use egg_local::apply::tally_rule;
use egg_local::egraph::count_substs;
use egg_local::scope::{extend, holds, let_in, new_ids};
use egg_local::time::{read_clock, time_since};
use egg_local::{
    Duration, Id, IndexMap, LimitReading, LocalBackoffScheduler, LocalRuleStats, LocalRunnerLimits,
    LocalStopPolicy, SearchMatches, StopReason, Symbol,
};

fn ids(list: &[usize]) -> Vec<Id> {
    list.iter().map(|i| Id::from(*i)).collect()
}

fn matches(counts: &[usize]) -> Vec<SearchMatches<u8>> {
    counts.iter().map(|n| SearchMatches { eclass: Id::from(*n), substs: vec![0; *n] }).collect()
}

fn stats(match_limit: usize, ban_length: usize) -> LocalRuleStats {
    LocalRuleStats { times_applied: 0, banned_until: 0, times_banned: 0, match_limit, ban_length }
}

#[test]
fn durations_count_nanoseconds() {
    assert_eq!(Duration::from_secs(5).as_nanos(), 5_000_000_000);
    assert_eq!(Duration::from_secs(u64::MAX).as_nanos(), 18_446_744_073_709_551_615_000_000_000);
    assert_eq!(Duration::from_nanos(7), Duration { nanos: 7 });
}

#[test]
fn symbols_are_their_characters() {
    let a = Symbol::from("commute");
    let b = Symbol::from(String::from("commute"));
    assert!(a.same(&b));
    assert!(!a.same(&Symbol::from("Commute")));
    assert_eq!(a.clone().as_str(), "commute");
}

#[test]
fn index_map_keeps_first_insertion_order() {
    let mut map: IndexMap<usize> = IndexMap::new();
    assert!(map.is_empty());
    map.insert(Symbol::from("b"), 1);
    map.insert(Symbol::from("a"), 2);
    map.insert(Symbol::from("b"), 3);
    assert_eq!(map.len(), 2);
    assert_eq!(map.key_at(0).as_str(), "b");
    assert_eq!(*map.value_at(0), 3);
    assert_eq!(map.key_at(1).as_str(), "a");
    assert_eq!(map.get(&Symbol::from("a")), Some(&2));
    assert_eq!(map.get(&Symbol::from("c")), None);
    assert_eq!(map.position(&Symbol::from("c")), 2);
    *map.value_at_mut(1) = 9;
    assert_eq!(map.get(&Symbol::from("a")), Some(&9));
    assert_eq!(map.get(&Symbol::from("b")), Some(&3));
}

#[test]
fn substitutions_are_counted_over_all_classes() {
    assert_eq!(count_substs(&matches(&[])), 0);
    assert_eq!(count_substs(&matches(&[3, 0, 4])), 7);
}

#[test]
fn created_classes_are_listed_once() {
    assert_eq!(new_ids(&ids(&[1, 2]), &ids(&[2, 3, 1, 3, 4])), ids(&[3, 4]));
    assert_eq!(new_ids(&ids(&[1, 2]), &ids(&[2, 1])), ids(&[]));
}

#[test]
fn scope_gains_only_what_it_lacks() {
    assert_eq!(extend(ids(&[5, 3]), &ids(&[]), &ids(&[3, 4])), ids(&[5, 3, 4]));
    assert_eq!(extend(ids(&[5, 5]), &ids(&[]), &ids(&[])), ids(&[5, 5]));
    assert_eq!(extend(ids(&[1]), &ids(&[2]), &ids(&[2, 1, 7])), ids(&[1, 7]));
    assert!(holds(&ids(&[1, 2]), Id::from(2)));
    assert!(!holds(&ids(&[1, 2]), Id::from(3)));
}

#[test]
fn merged_ids_are_let_in_by_their_roots() {
    let new = ids(&[10, 11, 12, 13]);
    let roots = ids(&[10, 2, 1, 3]);
    assert_eq!(let_in(&new, &roots, &ids(&[2, 3]), &ids(&[1, 3])), ids(&[10, 12, 13]));
    assert_eq!(let_in(&new, &roots, &ids(&[2, 3]), &ids(&[])), ids(&[10, 12]));
    assert_eq!(let_in(&new, &roots, &ids(&[]), &ids(&[1])), new);
}

#[test]
fn tally_leaves_out_rules_that_were_not_applied() {
    let mut tally: IndexMap<usize> = IndexMap::new();
    assert!(tally_rule(&mut tally, &Symbol::from("a"), 0));
    assert!(tally.is_empty());
    assert!(tally_rule(&mut tally, &Symbol::from("a"), 2));
    assert!(tally_rule(&mut tally, &Symbol::from("b"), 1));
    assert!(tally_rule(&mut tally, &Symbol::from("a"), 3));
    assert_eq!(tally.get(&Symbol::from("a")), Some(&5));
    assert_eq!(tally.len(), 2);
}

#[test]
fn tally_refuses_to_overflow() {
    let mut tally: IndexMap<usize> = IndexMap::new();
    assert!(tally_rule(&mut tally, &Symbol::from("a"), usize::MAX));
    assert!(!tally_rule(&mut tally, &Symbol::from("a"), 1));
    assert_eq!(tally.get(&Symbol::from("a")), Some(&usize::MAX));
}

#[test]
fn limits_are_held_in_order_of_time_size_and_iterations() {
    let limits = LocalRunnerLimits {
        iter_limit: 3,
        node_limit: 10,
        time_limit: Duration::from_secs(1),
        start_time: None,
    };
    let within = Duration::from_secs(1);
    let past = Duration::from_nanos(1_000_000_001);
    let judge = |iteration, elapsed, size| limits.judge(iteration, LimitReading { elapsed, size });
    assert_eq!(judge(2, within, 10), Ok(()));
    assert_eq!(judge(3, within, 10), Err(StopReason::IterationLimit(3)));
    assert_eq!(judge(3, within, 11), Err(StopReason::NodeLimit(11)));
    assert_eq!(judge(3, past, 11), Err(StopReason::TimeLimit(past)));
}

#[test]
fn too_many_matches_ban_a_rule_and_double_its_limit() {
    let mut s = stats(3, 5);
    assert_eq!(s.threshold(), 3);
    assert!(s.settle(0, 3));
    assert_eq!(s.times_applied, 1);
    assert!(!s.settle(10, 4));
    assert_eq!((s.times_banned, s.banned_until), (1, 15));
    assert_eq!(s.threshold(), 6);
    assert!(s.settle(15, 6));
    assert!(!s.settle(16, 7));
    assert_eq!((s.times_banned, s.banned_until), (2, 26));
    assert_eq!(s.threshold(), 12);
    assert_eq!(s.times_applied, 2);
}

#[test]
fn limit_loses_the_bits_that_do_not_fit() {
    let mut s = stats(usize::MAX, 5);
    s.times_banned = 1;
    assert_eq!(s.threshold(), usize::MAX - 1);
    s.times_banned = (usize::BITS - 1) as usize;
    assert_eq!(s.threshold(), 1usize << (usize::BITS - 1));
}

#[test]
fn judging_keeps_drops_or_overflows() {
    let mut s = stats(3, 5);
    let kept = s.judge(0, matches(&[1, 2])).unwrap();
    assert_eq!(kept.len(), 2);
    assert_eq!(kept[1].substs.len(), 2);
    assert_eq!(s.times_applied, 1);

    let dropped = s.judge(1, matches(&[2, 2])).unwrap();
    assert!(dropped.is_empty());
    assert_eq!(s.banned_until, 6);

    let mut s = stats(0, usize::MAX);
    assert!(s.judge(0, matches(&[1])).unwrap().is_empty());
    assert_eq!(s.banned_until, usize::MAX);

    let mut s = stats(0, usize::MAX);
    assert_eq!(s.judge(1, matches(&[1])).err(), Some(StopReason::Overflow));
    assert_eq!(s, stats(0, usize::MAX));

    let mut s = stats(3, 5);
    s.times_applied = usize::MAX;
    assert_eq!(s.judge(0, matches(&[1])).err(), Some(StopReason::Overflow));
    assert_eq!(s.times_applied, usize::MAX);
}

#[test]
fn unlimited_rules_keep_every_match() {
    let mut s = stats(usize::MAX, 5);
    assert!(s.settle(0, usize::MAX as u128));
    assert_eq!(s.times_banned, 0);
}

#[test]
fn scheduler_defaults_are_for_rules_not_seen_yet() {
    let mut scheduler = LocalBackoffScheduler::default();
    assert_eq!(*scheduler.rule_stats(Symbol::from("a")), stats(1_000, 5));
    let mut scheduler = scheduler.with_initial_match_limit(7).with_ban_length(2);
    assert_eq!(*scheduler.rule_stats(Symbol::from("a")), stats(1_000, 5));
    assert_eq!(*scheduler.rule_stats(Symbol::from("b")), stats(7, 2));
}

#[test]
fn rules_are_configured_by_name() {
    let mut scheduler = LocalBackoffScheduler::default()
        .do_not_ban("free")
        .rule_match_limit("tight", 1)
        .rule_ban_length(String::from("tight"), 9)
        .rule_ban_length(Symbol::from("long"), 100);
    assert_eq!(*scheduler.rule_stats(Symbol::from("free")), stats(usize::MAX, 5));
    assert_eq!(*scheduler.rule_stats(Symbol::from("tight")), stats(1, 9));
    assert_eq!(*scheduler.rule_stats(Symbol::from("long")), stats(1_000, 100));
    assert_eq!(*scheduler.rule_stats(Symbol::from("other")), stats(1_000, 5));
}

#[test]
fn runs_may_stop_without_bans() {
    let mut scheduler = LocalBackoffScheduler::default();
    assert!(scheduler.can_stop(0));
    scheduler.rule_stats(Symbol::from("a")).banned_until = 4;
    assert!(scheduler.can_stop(4));
    assert_eq!(scheduler.rule_stats(Symbol::from("a")).banned_until, 4);
}

#[test]
fn bans_are_fast_forwarded_together() {
    let mut scheduler = LocalBackoffScheduler::default();
    scheduler.rule_stats(Symbol::from("a")).banned_until = 9;
    scheduler.rule_stats(Symbol::from("b")).banned_until = 2;
    scheduler.rule_stats(Symbol::from("c")).banned_until = 7;
    assert!(!scheduler.can_stop(3));
    assert_eq!(scheduler.rule_stats(Symbol::from("a")).banned_until, 5);
    assert_eq!(scheduler.rule_stats(Symbol::from("b")).banned_until, 2);
    assert_eq!(scheduler.rule_stats(Symbol::from("c")).banned_until, 3);
    assert!(!scheduler.can_stop(3));
    assert_eq!(scheduler.rule_stats(Symbol::from("a")).banned_until, 3);
    assert!(scheduler.can_stop(3));
}

#[test]
fn stopping_is_refused_once_for_each_ban_end() {
    let mut scheduler = LocalBackoffScheduler::default();
    for (name, until) in [("a", 9), ("b", 5), ("c", 9), ("d", 30), ("e", 4)] {
        scheduler.rule_stats(Symbol::from(name)).banned_until = until;
    }
    let answers: Vec<bool> = (0..5).map(|_| scheduler.can_stop(4)).collect();
    assert_eq!(answers, vec![false, false, false, true, true]);
}

#[test]
fn bans_keep_their_distance_and_end_in_order() {
    let mut scheduler = LocalBackoffScheduler::default();
    scheduler.rule_stats(Symbol::from("late")).banned_until = 30;
    scheduler.rule_stats(Symbol::from("early")).banned_until = 9;
    scheduler.rule_stats(Symbol::from("first")).banned_until = 6;
    assert!(!scheduler.can_stop(4));
    assert_eq!(scheduler.rule_stats(Symbol::from("early")).banned_until, 7);
    assert_eq!(scheduler.rule_stats(Symbol::from("late")).banned_until, 28);
    assert!(!scheduler.can_stop(4));
    assert_eq!(scheduler.rule_stats(Symbol::from("early")).banned_until, 4);
    assert_eq!(scheduler.rule_stats(Symbol::from("late")).banned_until, 25);
}

#[test]
fn not_banning_is_the_largest_match_limit() {
    let mut a = LocalBackoffScheduler::default().do_not_ban("x");
    let mut b = LocalBackoffScheduler::default().rule_match_limit("x", usize::MAX);
    for name in ["x", "y"] {
        let expected = *b.rule_stats(Symbol::from(name));
        assert_eq!(*a.rule_stats(Symbol::from(name)), expected);
    }
}

#[test]
fn clocks_go_forward() {
    let start = read_clock();
    while start.elapsed().as_nanos() < 1_000_000 {}
    assert!(time_since(&start).as_nanos() >= 1_000_000);
}
