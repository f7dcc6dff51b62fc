//! Names that several rules share.
use vstd::prelude::*;

use crate::egraph::{EGraph, Rewrite};
use crate::index_map::{IndexMap, find, has, lemma_find, lookup, put};
use crate::symbol::Symbol;

verus! {

/// The names of the rules.
pub open spec fn names<G: EGraph>(rules: Seq<Rewrite<G>>) -> Seq<Seq<char>> {
    Seq::new(rules.len(), |i: int| rules[i].name@)
}

/// How often `name` occurs.
pub open spec fn occurrences(names: Seq<Seq<char>>, name: Seq<char>) -> nat
    decreases names.len(),
{
    if names.len() == 0 {
        0
    } else {
        occurrences(names.drop_last(), name) + if names.last() == name {
            1nat
        } else {
            0nat
        }
    }
}

/// The names without repetitions, in the order of their first use.
pub open spec fn first_uses(names: Seq<Seq<char>>) -> Seq<Seq<char>>
    decreases names.len(),
{
    if names.len() == 0 {
        Seq::empty()
    } else if occurrences(names.drop_last(), names.last()) > 0 {
        first_uses(names.drop_last())
    } else {
        first_uses(names.drop_last()).push(names.last())
    }
}

/// The names that occur more than once, in the order of their first use.
pub open spec fn repeated(names: Seq<Seq<char>>) -> Seq<Seq<char>> {
    first_uses(names).filter(|name: Seq<char>| occurrences(names, name) > 1)
}

/// A name is among the first uses exactly when it occurs, and once only.
pub proof fn lemma_first_uses(names: Seq<Seq<char>>)
    ensures
        first_uses(names).no_duplicates(),
        forall|name: Seq<char>| #[trigger]
            first_uses(names).contains(name) <==> occurrences(names, name) > 0,
    decreases names.len(),
{
    if names.len() > 0 {
        let front = names.drop_last();
        let last = names.last();
        let uses = first_uses(front);
        lemma_first_uses(front);
        assert forall|name: Seq<char>| #[trigger]
            first_uses(names).contains(name) <==> occurrences(names, name) > 0 by {
            assert(uses.contains(name) <==> occurrences(front, name) > 0);
            if occurrences(front, last) == 0 {
                let all = uses.push(last);
                if uses.contains(name) {
                    let k = uses.index_of(name);
                    assert(all[k] == name);
                }
                if name == last {
                    assert(all[all.len() - 1] == name);
                }
            }
        }
        if occurrences(front, last) == 0 {
            assert(!uses.contains(last));
        }
    }
}

/// The entries of a tally of names: the first uses, each with how often it occurs.
spec fn counts(entries: Seq<(Seq<char>, usize)>, names: Seq<Seq<char>>) -> bool {
    &&& entries.len() == first_uses(names).len()
    &&& forall|i: int|
        0 <= i < entries.len() ==> (#[trigger] entries[i]).0 == first_uses(names)[i]
            && entries[i].1 == occurrences(names, entries[i].0)
}

/// Counting one more name keeps the tally.
proof fn lemma_counts_step(
    entries: Seq<(Seq<char>, usize)>,
    names: Seq<Seq<char>>,
    name: Seq<char>,
    count: usize,
)
    requires
        counts(entries, names),
        count == occurrences(names, name) + 1,
    ensures
        counts(put(entries, name, count), names.push(name)),
        has(entries, name) <==> occurrences(names, name) > 0,
        has(entries, name) ==> lookup(entries, name) == Some((count - 1) as usize),
{
    let all = names.push(name);
    let after = put(entries, name, count);
    assert(all.drop_last() =~= names);
    lemma_find(entries, name);
    lemma_first_uses(names);
    let uses = first_uses(names);
    if has(entries, name) {
        assert(uses[find(entries, name)] == name);
        assert(uses.contains(name));
    } else if occurrences(names, name) > 0 {
        let k = uses.index_of(name);
        assert(uses.contains(name));
        assert(entries[k].0 == name);
        assert(false);
    }
    assert forall|i: int| 0 <= i < after.len() implies (#[trigger] after[i]).0 == first_uses(
        all,
    )[i] && after[i].1 == occurrences(all, after[i].0) by {
        if i < entries.len() {
            assert(entries[i].0 == uses[i]);
            if has(entries, name) && i != find(entries, name) {
                assert(uses[find(entries, name)] == name);
                assert(uses[i] != name);
            }
        }
    }
}

/// Finds the names that several rules share, each with how many do, in the order of
/// their first use. Such rules are scheduled and reported as if they were one.
pub fn check_local_rules<G: EGraph>(rules: &Vec<Rewrite<G>>) -> (res: Vec<(Symbol, usize)>)
    ensures
        res@.len() == repeated(names(rules@)).len(),
        forall|i: int|
            0 <= i < res@.len() ==> (#[trigger] res@[i]).0@ == repeated(names(rules@))[i]
                && res@[i].1 == occurrences(names(rules@), res@[i].0@),
{
    let ghost all = names(rules@);
    let mut tally: IndexMap<usize> = IndexMap::new();
    let mut i: usize = 0;
    assert(all.take(0) =~= Seq::<Seq<char>>::empty());
    while i < rules.len()
        invariant
            all == names(rules@),
            i <= rules@.len(),
            counts(tally@, all.take(i as int)),
        decreases rules@.len() - i,
    {
        let name = &rules[i].name;
        proof {
            lemma_occurrences_bound(all.take(i as int), name@);
            lemma_counts_step(
                tally@,
                all.take(i as int),
                name@,
                (occurrences(all.take(i as int), name@) + 1) as usize,
            );
            assert(all.take(i + 1) =~= all.take(i as int).push(name@));
        }
        let sofar: usize = match tally.get(name) {
            Some(sofar) => *sofar,
            None => 0,
        };
        tally.insert(name.clone(), sofar + 1);
        i = i + 1;
    }
    assert(all.take(i as int) =~= all);

    let ghost several = |name: Seq<char>| occurrences(all, name) > 1;
    let ghost uses = first_uses(all);
    let mut res: Vec<(Symbol, usize)> = Vec::new();
    let mut k: usize = 0;
    assert(uses.take(0).filter(several) =~= Seq::<Seq<char>>::empty()) by {
        reveal(Seq::filter);
    }
    while k < tally.len()
        invariant
            counts(tally@, all),
            uses == first_uses(all),
            several == (|name: Seq<char>| occurrences(all, name) > 1),
            k <= tally@.len(),
            res@.len() == uses.take(k as int).filter(several).len(),
            forall|j: int|
                0 <= j < res@.len() ==> (#[trigger] res@[j]).0@ == uses.take(k as int).filter(
                    several,
                )[j] && res@[j].1 == occurrences(all, res@[j].0@),
        decreases tally@.len() - k,
    {
        proof {
            reveal(Seq::filter);
            assert(tally@[k as int].0 == uses[k as int]);
            assert(uses.take(k + 1).drop_last() =~= uses.take(k as int));
            assert(uses.take(k + 1).last() == uses[k as int]);
        }
        let count: usize = *tally.value_at(k);
        if count > 1 {
            res.push((tally.key_at(k).clone(), count));
        }
        k = k + 1;
    }
    assert(uses.take(k as int) =~= uses);
    res
}

/// A name occurs at most as often as there are names.
proof fn lemma_occurrences_bound(names: Seq<Seq<char>>, name: Seq<char>)
    ensures
        occurrences(names, name) <= names.len(),
    decreases names.len(),
{
    if names.len() > 0 {
        lemma_occurrences_bound(names.drop_last(), name);
    }
}

/// A name that occurs nowhere has no occurrences, and one that occurs once only has one.
proof fn lemma_occurrences(names: Seq<Seq<char>>, name: Seq<char>)
    ensures
        occurrences(names, name) > 0 <==> names.contains(name),
        names.no_duplicates() ==> occurrences(names, name) <= 1,
    decreases names.len(),
{
    if names.len() > 0 {
        let front = names.drop_last();
        let last = names.last();
        lemma_occurrences(front, name);
        if front.contains(name) {
            let k = front.index_of(name);
            assert(names[k] == name);
        }
        if names.contains(name) {
            let k = names.index_of(name);
            if k < front.len() {
                assert(front[k] == name);
            } else {
                assert(name == last);
            }
        }
        if last == name {
            assert(names[names.len() - 1] == name);
        }
        if names.no_duplicates() && last == name {
            assert(!front.contains(name));
        }
    }
}

/// A selection from a list holds what the list holds and the selection admits, and
/// repeats nothing that the list does not repeat.
proof fn lemma_selection(list: Seq<Seq<char>>, admits: spec_fn(Seq<char>) -> bool)
    ensures
        forall|name: Seq<char>| #[trigger]
            list.filter(admits).contains(name) <==> list.contains(name) && admits(name),
        list.no_duplicates() ==> list.filter(admits).no_duplicates(),
    decreases list.len(),
{
    reveal(Seq::filter);
    if list.len() > 0 {
        let front = list.drop_last();
        let last = list.last();
        let kept = front.filter(admits);
        let all = list.filter(admits);
        lemma_selection(front, admits);
        assert forall|name: Seq<char>| #[trigger]
            all.contains(name) <==> list.contains(name) && admits(name) by {
            assert(kept.contains(name) <==> front.contains(name) && admits(name));
            if front.contains(name) {
                assert(list[front.index_of(name)] == name);
            }
            if list.contains(name) && name != last {
                assert(front[list.index_of(name)] == name);
            }
            if name == last {
                assert(list[list.len() - 1] == name);
            }
            if kept.contains(name) {
                assert(all[kept.index_of(name)] == name);
            }
            if admits(last) {
                assert(all[all.len() - 1] == last);
            }
        }
        if list.no_duplicates() {
            assert(!kept.contains(last)) by {
                assert(!front.contains(last));
            }
        }
    }
}

/// The names that several rules share are exactly those that occur more than once, and
/// each is listed once.
pub proof fn law_repeated_lists_shared_names(names: Seq<Seq<char>>)
    ensures
        repeated(names).no_duplicates(),
        forall|name: Seq<char>| #[trigger]
            repeated(names).contains(name) <==> occurrences(names, name) > 1,
{
    let several = |name: Seq<char>| occurrences(names, name) > 1;
    let uses = first_uses(names);
    lemma_first_uses(names);
    lemma_selection(uses, several);
    assert forall|name: Seq<char>| #[trigger]
        repeated(names).contains(name) <==> occurrences(names, name) > 1 by {
        assert(uses.contains(name) <==> occurrences(names, name) > 0);
    }
}

/// No name is listed where every rule has a name of its own.
pub proof fn law_own_names_are_not_listed(names: Seq<Seq<char>>)
    requires
        names.no_duplicates(),
    ensures
        repeated(names).len() == 0,
{
    law_repeated_lists_shared_names(names);
    if repeated(names).len() > 0 {
        let name = repeated(names)[0];
        assert(repeated(names).contains(name));
        lemma_occurrences(names, name);
    }
}

/// A name occurs as often as there are places that have it.
pub proof fn law_occurrences_are_places(names: Seq<Seq<char>>, name: Seq<char>)
    ensures
        occurrences(names, name) == names.filter(|other: Seq<char>| other == name).len(),
        occurrences(names, name) > 0 <==> exists|i: int|
            0 <= i < names.len() && #[trigger] names[i] == name,
        occurrences(names, name) > 1 <==> exists|i: int, j: int|
            0 <= i < j < names.len() && #[trigger] names[i] == name && #[trigger] names[j] == name,
    decreases names.len(),
{
    reveal(Seq::filter);
    if names.len() > 0 {
        let front = names.drop_last();
        let last = names.len() - 1;
        law_occurrences_are_places(front, name);
        if occurrences(front, name) > 0 {
            let i = choose|i: int| 0 <= i < front.len() && #[trigger] front[i] == name;
            assert(names[i] == name);
            if names[last] == name {
                assert(names[i] == name && names[last] == name);
            }
        }
        if occurrences(front, name) > 1 {
            let (i, j) = choose|i: int, j: int|
                0 <= i < j < front.len() && #[trigger] front[i] == name && #[trigger] front[j]
                    == name;
            assert(names[i] == name && names[j] == name);
        }
        if exists|i: int| 0 <= i < names.len() && #[trigger] names[i] == name {
            let i = choose|i: int| 0 <= i < names.len() && #[trigger] names[i] == name;
            if i < last {
                assert(front[i] == name);
            }
        }
        if exists|i: int, j: int|
            0 <= i < j < names.len() && #[trigger] names[i] == name && #[trigger] names[j]
                == name {
            let (i, j) = choose|i: int, j: int|
                0 <= i < j < names.len() && #[trigger] names[i] == name && #[trigger] names[j]
                    == name;
            assert(front[i] == name);
            if j < last {
                assert(front[j] == name);
            }
        }
    }
}

/// `first` is used somewhere before any use of `second`.
pub open spec fn used_before(names: Seq<Seq<char>>, first: Seq<char>, second: Seq<char>) -> bool {
    exists|p: int|
        {
            &&& 0 <= p < names.len()
            &&& #[trigger] names[p] == first
            &&& occurrences(names.take(p + 1), second) == 0
        }
}

/// The first uses are in order.
proof fn lemma_first_uses_in_order(names: Seq<Seq<char>>)
    ensures
        forall|i: int, j: int|
            0 <= i < j < first_uses(names).len() ==> used_before(
                names,
                #[trigger] first_uses(names)[i],
                #[trigger] first_uses(names)[j],
            ),
    decreases names.len(),
{
    if names.len() > 0 {
        let front = names.drop_last();
        let uses = first_uses(front);
        let all = first_uses(names);
        lemma_first_uses_in_order(front);
        lemma_first_uses(front);
        assert forall|i: int, j: int| 0 <= i < j < all.len() implies used_before(
            names,
            #[trigger] all[i],
            #[trigger] all[j],
        ) by {
            assert(all[i] == uses[i]);
            assert(uses.contains(uses[i]));
            if j < uses.len() {
                assert(all[j] == uses[j]);
                assert(used_before(front, uses[i], uses[j]));
                let p = choose|p: int|
                    {
                        &&& 0 <= p < front.len()
                        &&& #[trigger] front[p] == uses[i]
                        &&& occurrences(front.take(p + 1), uses[j]) == 0
                    };
                assert(front.take(p + 1) =~= names.take(p + 1));
                assert(names[p] == all[i]);
            } else {
                lemma_occurrences(front, uses[i]);
                let p = front.index_of(uses[i]);
                assert(names[p] == all[i]);
                lemma_occurrences(front, names.last());
                lemma_occurrences(names.take(p + 1), names.last());
                if names.take(p + 1).contains(names.last()) {
                    let q = names.take(p + 1).index_of(names.last());
                    assert(front[q] == names.last());
                }
            }
        }
    }
}

/// A selection from a list keeps its order.
proof fn lemma_selection_in_order(
    names: Seq<Seq<char>>,
    list: Seq<Seq<char>>,
    admits: spec_fn(Seq<char>) -> bool,
)
    requires
        forall|i: int, j: int|
            0 <= i < j < list.len() ==> used_before(names, #[trigger] list[i], #[trigger] list[j]),
    ensures
        forall|i: int, j: int|
            0 <= i < j < list.filter(admits).len() ==> used_before(
                names,
                #[trigger] list.filter(admits)[i],
                #[trigger] list.filter(admits)[j],
            ),
        forall|i: int|
            0 <= i < list.filter(admits).len() ==> exists|k: int|
                0 <= k < list.len() && #[trigger] list[k] == #[trigger] list.filter(admits)[i],
    decreases list.len(),
{
    reveal(Seq::filter);
    if list.len() > 0 {
        let front = list.drop_last();
        let kept = front.filter(admits);
        let all = list.filter(admits);
        assert forall|i: int, j: int| 0 <= i < j < front.len() implies used_before(
            names,
            #[trigger] front[i],
            #[trigger] front[j],
        ) by {
            assert(front[i] == list[i] && front[j] == list[j]);
        }
        lemma_selection_in_order(names, front, admits);
        assert forall|i: int| 0 <= i < all.len() implies exists|k: int|
            0 <= k < list.len() && #[trigger] list[k] == #[trigger] all[i] by {
            if i < kept.len() {
                assert(all[i] == kept[i]);
                let k = choose|k: int| 0 <= k < front.len() && #[trigger] front[k] == kept[i];
                assert(list[k] == all[i]);
            } else {
                assert(list[list.len() - 1] == all[i]);
            }
        }
        assert forall|i: int, j: int| 0 <= i < j < all.len() implies used_before(
            names,
            #[trigger] all[i],
            #[trigger] all[j],
        ) by {
            assert(all[i] == kept[i]);
            if j < kept.len() {
                assert(all[j] == kept[j]);
            } else {
                let k = choose|k: int| 0 <= k < front.len() && #[trigger] front[k] == kept[i];
                assert(list[k] == all[i]);
                assert(list[list.len() - 1] == all[j]);
            }
        }
    }
}

/// The names that are found are exactly those that two rules share, each once, with the
/// number of rules that have it, and in the order of their first use.
pub proof fn law_shared_names_are_found<G: EGraph>(
    rules: &Vec<Rewrite<G>>,
    res: Vec<(Symbol, usize)>,
)
    requires
        call_ensures(check_local_rules::<G>, (rules,), res),
    ensures
        forall|i: int, j: int|
            #![trigger rules@[i], rules@[j]]
            0 <= i < j < rules@.len() && rules@[i].name@ == rules@[j].name@ ==> exists|k: int|
                0 <= k < res@.len() && (#[trigger] res@[k]).0@ == rules@[i].name@,
        forall|k: int|
            0 <= k < res@.len() ==> exists|i: int, j: int|
                0 <= i < j < rules@.len() && (#[trigger] rules@[i]).name@ == (
                #[trigger] res@[k]).0@ && (#[trigger] rules@[j]).name@ == res@[k].0@,
        forall|k: int, l: int|
            0 <= k < l < res@.len() ==> (#[trigger] res@[k]).0@ != (#[trigger] res@[l]).0@
                && used_before(
                Seq::new(rules@.len(), |i: int| rules@[i].name@),
                res@[k].0@,
                res@[l].0@,
            ),
        forall|k: int|
            0 <= k < res@.len() ==> (#[trigger] res@[k]).1 == Seq::new(
                rules@.len(),
                |i: int| rules@[i].name@,
            ).filter(|other: Seq<char>| other == res@[k].0@).len(),
{
    let all = names(rules@);
    let shared = repeated(all);
    assert(all == Seq::new(rules@.len(), |i: int| rules@[i].name@));
    law_repeated_lists_shared_names(all);
    lemma_first_uses_in_order(all);
    lemma_selection_in_order(all, first_uses(all), |name: Seq<char>| occurrences(all, name) > 1);
    assert forall|i: int, j: int|
        #![trigger rules@[i], rules@[j]]
        0 <= i < j < rules@.len() && rules@[i].name@ == rules@[j].name@ implies exists|k: int|
            0 <= k < res@.len() && (#[trigger] res@[k]).0@ == rules@[i].name@ by {
        let name = rules@[i].name@;
        law_occurrences_are_places(all, name);
        assert(all[i] == name && all[j] == name);
        assert(shared.contains(name));
        let k = shared.index_of(name);
        assert(res@[k].0@ == name);
    }
    assert forall|k: int| 0 <= k < res@.len() implies exists|i: int, j: int|
        0 <= i < j < rules@.len() && (#[trigger] rules@[i]).name@ == (#[trigger] res@[k]).0@ && (
        #[trigger] rules@[j]).name@ == res@[k].0@ by {
        let name = res@[k].0@;
        assert(shared.contains(shared[k]));
        law_occurrences_are_places(all, name);
        let (i, j) = choose|i: int, j: int|
            0 <= i < j < all.len() && #[trigger] all[i] == name && #[trigger] all[j] == name;
        assert(rules@[i].name@ == name && rules@[j].name@ == name);
    }
    assert forall|k: int| 0 <= k < res@.len() implies (#[trigger] res@[k]).1 == all.filter(
        |other: Seq<char>| other == res@[k].0@,
    ).len() by {
        let name = res@[k].0@;
        law_occurrences_are_places(all, name);
        let one = |other: Seq<char>| other == name;
        assert(one =~= (|other: Seq<char>| other == res@[k].0@));
        assert(res@[k].1 == all.filter(one).len());
    }
    assert forall|k: int, l: int| 0 <= k < l < res@.len() implies (#[trigger] res@[k]).0@ != (
    #[trigger] res@[l]).0@ && used_before(all, res@[k].0@, res@[l].0@) by {
        assert(shared[k] == res@[k].0@ && shared[l] == res@[l].0@);
    }
}

} // verus!
