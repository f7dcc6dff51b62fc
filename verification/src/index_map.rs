//! A map from names to values that remembers the order of first insertion.
use vstd::prelude::*;

use crate::symbol::Symbol;

verus! {

/// A list of named values, in the order in which the names were first inserted.
#[derive(Debug)]
pub struct IndexMap<V> {
    keys: Vec<Symbol>,
    values: Vec<V>,
}

/// The first position of `key` among `entries`, or their number where it has none.
pub open spec fn find<V>(entries: Seq<(Seq<char>, V)>, key: Seq<char>) -> int
    decreases entries.len(),
{
    if entries.len() == 0 {
        0
    } else if entries.first().0 == key {
        0
    } else {
        1 + find(entries.drop_first(), key)
    }
}

/// Whether `key` has a value.
pub open spec fn has<V>(entries: Seq<(Seq<char>, V)>, key: Seq<char>) -> bool {
    find(entries, key) < entries.len()
}

/// The value of `key`, where it has one.
pub open spec fn lookup<V>(entries: Seq<(Seq<char>, V)>, key: Seq<char>) -> Option<V> {
    if has(entries, key) {
        Some(entries[find(entries, key)].1)
    } else {
        None
    }
}

/// The entries once `key` has been given `value`: in its place where it had one,
/// at the end where it had none.
pub open spec fn put<V>(entries: Seq<(Seq<char>, V)>, key: Seq<char>, value: V) -> Seq<
    (Seq<char>, V),
> {
    if has(entries, key) {
        entries.update(find(entries, key), (key, value))
    } else {
        entries.push((key, value))
    }
}

/// No name occurs twice.
pub open spec fn distinct<V>(entries: Seq<(Seq<char>, V)>) -> bool {
    forall|i: int, j: int|
        0 <= i < j < entries.len() ==> #[trigger] entries[i].0 != #[trigger] entries[j].0
}

/// `find` is the first position at which the name is `key`.
pub proof fn lemma_find<V>(entries: Seq<(Seq<char>, V)>, key: Seq<char>)
    ensures
        0 <= find(entries, key) <= entries.len(),
        has(entries, key) ==> entries[find(entries, key)].0 == key,
        forall|i: int| 0 <= i < find(entries, key) ==> (#[trigger] entries[i]).0 != key,
    decreases entries.len(),
{
    if entries.len() > 0 && entries.first().0 != key {
        let rest = entries.drop_first();
        lemma_find(rest, key);
        assert forall|i: int| 0 <= i < find(entries, key) implies (#[trigger] entries[i]).0
            != key by {
            if i > 0 {
                assert(entries[i] == rest[i - 1]);
            }
        }
    }
}

/// A position before which `key` does not occur, and at which it does, is `find`'s.
pub proof fn lemma_find_is<V>(entries: Seq<(Seq<char>, V)>, key: Seq<char>, at: int)
    requires
        0 <= at <= entries.len(),
        at < entries.len() ==> entries[at].0 == key,
        forall|i: int| 0 <= i < at ==> (#[trigger] entries[i]).0 != key,
    ensures
        find(entries, key) == at,
{
    lemma_find(entries, key);
    let f = find(entries, key);
    if f < at {
        assert(entries[f].0 != key);
    } else if at < f {
        assert(entries[at].0 != key);
    }
}

/// Reading a name after it was given a value returns that value, and every other
/// name reads as before.
pub proof fn law_lookup_after_put<V>(
    entries: Seq<(Seq<char>, V)>,
    key: Seq<char>,
    value: V,
    other: Seq<char>,
)
    ensures
        lookup(put(entries, key, value), key) == Some(value),
        other != key ==> lookup(put(entries, key, value), other) == lookup(entries, other),
{
    let after = put(entries, key, value);
    let f = find(entries, key);
    lemma_find(entries, key);
    lemma_find_is(after, key, f);
    if other != key {
        let g = find(entries, other);
        lemma_find(entries, other);
        if g < entries.len() || has(entries, key) {
            lemma_find_is(after, other, g);
        } else {
            lemma_find_is(after, other, g + 1);
        }
    }
}

/// Giving a name a value leaves every name at most once in the list, and keeps
/// the names that were there in their places.
pub proof fn law_put_keeps_order<V>(entries: Seq<(Seq<char>, V)>, key: Seq<char>, value: V)
    ensures
        distinct(entries) ==> distinct(put(entries, key, value)),
        entries.len() <= put(entries, key, value).len(),
        forall|i: int|
            0 <= i < entries.len() ==> (#[trigger] put(entries, key, value)[i]).0 == entries[i].0,
{
    lemma_find(entries, key);
}

impl<V> View for IndexMap<V> {
    type V = Seq<(Seq<char>, V)>;

    closed spec fn view(&self) -> Seq<(Seq<char>, V)> {
        Seq::new(self.keys@.len(), |i: int| (self.keys@[i]@, self.values@[i]))
    }
}

impl<V> IndexMap<V> {
    /// Every name has one value, and no name occurs twice.
    #[verifier::type_invariant]
    spec fn well_formed(self) -> bool {
        &&& self.values@.len() == self.keys@.len()
        &&& forall|i: int, j: int|
            0 <= i < j < self.keys@.len() ==> (#[trigger] self.keys@[i])@
                != (#[trigger] self.keys@[j])@
    }

    /// A map without entries.
    pub fn new() -> (map: Self)
        ensures
            map@ == Seq::<(Seq<char>, V)>::empty(),
    {
        let map = IndexMap { keys: Vec::new(), values: Vec::new() };
        assert(map@ =~= Seq::<(Seq<char>, V)>::empty());
        map
    }

    /// How many entries there are.
    pub fn len(&self) -> (n: usize)
        ensures
            n == self@.len(),
    {
        self.keys.len()
    }

    /// Whether there is no entry.
    pub fn is_empty(&self) -> (b: bool)
        ensures
            b == (self@.len() == 0),
    {
        self.keys.len() == 0
    }

    /// The only position of `key`, or the number of entries where it has none.
    pub fn position(&self, key: &Symbol) -> (at: usize)
        ensures
            at == find(self@, key@),
            distinct(self@),
    {
        proof {
            use_type_invariant(self);
        }
        let mut at: usize = 0;
        while at < self.keys.len() && !self.keys[at].same(key)
            invariant
                at <= self.keys@.len(),
                forall|i: int| 0 <= i < at ==> (#[trigger] self@[i]).0 != key@,
            decreases self.keys@.len() - at,
        {
            assert(self@[at as int].0 == self.keys@[at as int]@);
            at = at + 1;
        }
        proof {
            lemma_find_is(self@, key@, at as int);
        }
        at
    }

    /// The value of `key`, where it has one.
    pub fn get(&self, key: &Symbol) -> (value: Option<&V>)
        ensures
            value == match lookup(self@, key@) {
                Some(v) => Some(&v),
                None => None::<&V>,
            },
    {
        proof {
            use_type_invariant(self);
        }
        let at: usize = self.position(key);
        if at < self.keys.len() {
            Some(&self.values[at])
        } else {
            None
        }
    }

    /// The name at `index`.
    pub fn key_at(&self, index: usize) -> (key: &Symbol)
        requires
            index < self@.len(),
        ensures
            key@ == self@[index as int].0,
    {
        &self.keys[index]
    }

    /// The value at `index`.
    pub fn value_at(&self, index: usize) -> (value: &V)
        requires
            index < self@.len(),
        ensures
            *value == self@[index as int].1,
    {
        proof {
            use_type_invariant(self);
        }
        &self.values[index]
    }

    /// The value at `index`, to be changed in place.
    pub fn value_at_mut(&mut self, index: usize) -> (value: &mut V)
        requires
            index < old(self)@.len(),
        ensures
            *value == old(self)@[index as int].1,
            final(self)@ == old(self)@.update(
                index as int,
                (old(self)@[index as int].0, *final(value)),
            ),
    {
        proof {
            use_type_invariant(&*self);
        }
        &mut self.values[index]
    }

    /// Gives `key` the value `value`.
    pub fn insert(&mut self, key: Symbol, value: V)
        ensures
            final(self)@ == put(old(self)@, key@, value),
    {
        let at: usize = self.position(&key);
        proof {
            use_type_invariant(&*self);
            lemma_find(self@, key@);
        }
        if at < self.keys.len() {
            *self.value_at_mut(at) = value;
        } else {
            let ghost before = self@;
            let mut map = IndexMap::new();
            proof {
                use_type_invariant(&map);
            }
            std::mem::swap(self, &mut map);
            let IndexMap { mut keys, mut values } = map;
            assert forall|i: int| 0 <= i < keys@.len() implies (#[trigger] keys@[i])@ != key@ by {
                assert(before[i].0 == keys@[i]@);
            }
            keys.push(key);
            values.push(value);
            *self = IndexMap { keys, values };
        }
        assert(self@ =~= put(old(self)@, key@, value));
    }
}

/// The value that a name is given is the one that is read for it, every other name reads as
/// before, no name moves, and the map grows by one entry exactly where the name had none.
pub proof fn law_value_is_read_back<V>(
    map: &mut IndexMap<V>,
    key: Symbol,
    value: V,
    other: &Symbol,
    before: Option<&V>,
    later: &IndexMap<V>,
    own: Option<&V>,
    after: Option<&V>,
)
    requires
        call_ensures(IndexMap::<V>::get, (&*map, other), before),
        call_ensures(IndexMap::<V>::insert, (map, key, value), ()),
        later@ == final(map)@,
        call_ensures(IndexMap::<V>::get, (later, &key), own),
        call_ensures(IndexMap::<V>::get, (later, other), after),
    ensures
        own == Some(&value),
        other@ != key@ ==> after == before,
        forall|i: int|
            0 <= i < old(map)@.len() ==> (#[trigger] later@[i]).0 == old(map)@[i].0,
        (exists|i: int| 0 <= i < old(map)@.len() && (#[trigger] old(map)@[i]).0 == key@)
            ==> later@.len() == old(map)@.len(),
        (forall|i: int| 0 <= i < old(map)@.len() ==> (#[trigger] old(map)@[i]).0 != key@)
            ==> later@ == old(map)@.push((key@, value)),
{
    law_lookup_after_put(old(map)@, key@, value, other@);
    law_put_keeps_order(old(map)@, key@, value);
    lemma_find(old(map)@, key@);
}

/// What is read for a name is the value of the entry that has it, and nothing where none has.
pub proof fn law_entry_is_read_by_its_name<V>(
    map: &IndexMap<V>,
    key: &Symbol,
    value: Option<&V>,
    at: usize,
    n: usize,
    empty: bool,
)
    requires
        call_ensures(IndexMap::<V>::get, (map, key), value),
        call_ensures(IndexMap::<V>::position, (map, key), at),
        call_ensures(IndexMap::<V>::len, (map,), n),
        call_ensures(IndexMap::<V>::is_empty, (map,), empty),
    ensures
        n == map@.len(),
        empty <==> n == 0,
        forall|i: int, j: int|
            0 <= i < j < map@.len() ==> (#[trigger] map@[i]).0 != (#[trigger] map@[j]).0,
        forall|i: int|
            0 <= i < map@.len() && (#[trigger] map@[i]).0 == key@ ==> at == i && value == Some(
                &map@[i].1,
            ),
        (forall|i: int| 0 <= i < map@.len() ==> (#[trigger] map@[i]).0 != key@) ==> at == n
            && value is None,
{
    lemma_find(map@, key@);
    assert forall|i: int| 0 <= i < map@.len() && (#[trigger] map@[i]).0 == key@ implies at == i
        && value == Some(&map@[i].1) by {
        lemma_find_is(map@, key@, i);
    }
}

/// What is written at a place is the value there, and no other entry changes.
pub proof fn law_value_is_changed_in_place<V>(map: &mut IndexMap<V>, index: usize, value: &mut V)
    requires
        index < old(map)@.len(),
        call_ensures(IndexMap::<V>::value_at_mut, (map, index), value),
    ensures
        *old(value) == old(map)@[index as int].1,
        final(map)@.len() == old(map)@.len(),
        final(map)@[index as int] == (old(map)@[index as int].0, *final(value)),
        forall|i: int|
            0 <= i < old(map)@.len() && i != index ==> #[trigger] final(map)@[i] == old(map)@[i],
{
}

/// Entries are read where they stand.
pub proof fn law_entries_are_read_in_place<V>(
    map: &IndexMap<V>,
    index: usize,
    key: &Symbol,
    value: &V,
)
    requires
        index < map@.len(),
        call_ensures(IndexMap::<V>::key_at, (map, index), key),
        call_ensures(IndexMap::<V>::value_at, (map, index), value),
    ensures
        map@[index as int] == (key@, *value),
{
}

} // verus!
