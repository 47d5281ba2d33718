//! A map from string keys to values that lists its entries in key order.
//!
//! `ValueMap` keeps its entries in a vector, sorted by key and without a key
//! occurring twice. Its view is a `Map` from the keys' characters to the
//! values; `entries` is the same content as the sequence in which it is listed.
use crate::key_order::{
    compare_keys, key_lt, lemma_key_lt_irreflexive, lemma_key_lt_transitive,
    lemma_key_lt_trichotomy, strictly_increasing, KeyOrder,
};
use vstd::prelude::*;

verus! {

/// The map that a sequence of entries describes: each key is mapped to the
/// value of the last entry that holds it.
pub open spec fn entries_map<V>(entries: Seq<(Seq<char>, V)>) -> Map<Seq<char>, V>
    decreases entries.len(),
{
    if entries.len() == 0 {
        Map::empty()
    } else {
        entries_map(entries.drop_last()).insert(entries.last().0, entries.last().1)
    }
}

/// The keys of a sequence of entries, in the same order.
pub open spec fn entry_keys<V>(entries: Seq<(Seq<char>, V)>) -> Seq<Seq<char>> {
    entries.map_values(|e: (Seq<char>, V)| e.0)
}

/// Stored entries with each key taken by its characters.
pub open spec fn entry_views<V>(stored: Seq<(String, V)>) -> Seq<(Seq<char>, V)> {
    stored.map_values(|e: (String, V)| (e.0@, e.1))
}

/// The keys of `entries_map` are the keys of the entries, and there are
/// finitely many of them.
pub proof fn lemma_entries_map_keys<V>(entries: Seq<(Seq<char>, V)>)
    ensures
        forall|key: Seq<char>|
            #![trigger entries_map(entries).contains_key(key)]
            #![trigger entry_keys(entries).contains(key)]
            entries_map(entries).contains_key(key) <==> entry_keys(entries).contains(key),
        entries_map(entries).dom().finite(),
    decreases entries.len(),
{
    if entries.len() > 0 {
        let front = entries.drop_last();
        lemma_entries_map_keys(front);
        assert forall|key: Seq<char>|
            entries_map(entries).contains_key(key) <==> entry_keys(entries).contains(
                key,
            ) by {
            if entry_keys(front).contains(key) {
                let i = choose|i: int| 0 <= i < front.len() && entry_keys(front)[i] == key;
                assert(entry_keys(entries)[i] == key);
            }
            if key == entries.last().0 {
                assert(entry_keys(entries)[entries.len() - 1] == key);
            }
            if entry_keys(entries).contains(key) {
                let i = choose|i: int| 0 <= i < entries.len() && entry_keys(entries)[i] == key;
                if i < front.len() {
                    assert(entry_keys(front)[i] == key);
                }
            }
        }
    }
}

/// Where no later entry holds the key of entry `i`, `entries_map` maps that
/// key to the value of entry `i`.
pub proof fn lemma_entries_map_value<V>(entries: Seq<(Seq<char>, V)>, i: int)
    requires
        0 <= i < entries.len(),
        forall|j: int| i < j < entries.len() ==> (#[trigger] entries[j]).0 != entries[i].0,
    ensures
        entries_map(entries).contains_key(entries[i].0),
        entries_map(entries)[entries[i].0] == entries[i].1,
    decreases entries.len(),
{
    if i < entries.len() - 1 {
        let front = entries.drop_last();
        assert(entries[entries.len() - 1].0 != entries[i].0);
        assert forall|j: int| i < j < front.len() implies (#[trigger] front[j]).0
            != front[i].0 by {
            assert(front[j] == entries[j]);
        }
        lemma_entries_map_value(front, i);
    }
}

/// Of entries in strictly increasing key order, `entries_map` holds each one,
/// and as many keys as there are entries.
pub proof fn lemma_sorted_entries<V>(entries: Seq<(Seq<char>, V)>)
    requires
        strictly_increasing(entry_keys(entries)),
    ensures
        forall|i: int|
            0 <= i < entries.len() ==> entries_map(entries).contains_key(
                (#[trigger] entries[i]).0,
            ) && entries_map(entries)[entries[i].0] == entries[i].1,
        forall|i: int, j: int|
            0 <= i < entries.len() && 0 <= j < entries.len() && i != j ==> (#[trigger] entries[i]).0
                != (#[trigger] entries[j]).0,
        entries_map(entries).dom().finite(),
        entries_map(entries).len() == entries.len(),
    decreases entries.len(),
{
    let keys = entry_keys(entries);
    assert forall|i: int, j: int|
        0 <= i < entries.len() && 0 <= j < entries.len() && i != j implies (#[trigger] entries[i]).0
        != (#[trigger] entries[j]).0 by {
        lemma_key_lt_irreflexive(keys[i]);
        if i < j {
            assert(key_lt(keys[i], keys[j]));
        } else {
            assert(key_lt(keys[j], keys[i]));
        }
    }
    assert forall|i: int| 0 <= i < entries.len() implies entries_map(entries).contains_key(
        (#[trigger] entries[i]).0,
    ) && entries_map(entries)[entries[i].0] == entries[i].1 by {
        lemma_entries_map_value(entries, i);
    }
    lemma_entries_map_keys(entries);
    if entries.len() > 0 {
        let front = entries.drop_last();
        assert forall|i: int, j: int| 0 <= i < j < front.len() implies key_lt(
            entry_keys(front)[i],
            entry_keys(front)[j],
        ) by {
            assert(key_lt(keys[i], keys[j]));
        }
        lemma_sorted_entries(front);
        lemma_entries_map_keys(front);
        if entry_keys(front).contains(entries.last().0) {
            let i = choose|i: int| 0 <= i < front.len() && entry_keys(front)[i] == entries.last().0;
            assert(entries[i].0 == entries[entries.len() - 1].0);
        }
    }
}

/// Replacing the value of entry `at` keeps the key order, and maps the key
/// of that entry to the new value.
pub proof fn lemma_replace_value<V>(entries: Seq<(Seq<char>, V)>, at: int, value: V)
    requires
        strictly_increasing(entry_keys(entries)),
        0 <= at < entries.len(),
    ensures
        strictly_increasing(entry_keys(entries.update(at, (entries[at].0, value)))),
        entries_map(entries.update(at, (entries[at].0, value))) == entries_map(entries).insert(
            entries[at].0,
            value,
        ),
{
    let key = entries[at].0;
    let changed = entries.update(at, (key, value));
    assert(entry_keys(changed) =~= entry_keys(entries));
    lemma_sorted_entries(entries);
    lemma_sorted_entries(changed);
    lemma_entries_map_keys(entries);
    lemma_entries_map_keys(changed);
    let left = entries_map(changed);
    let right = entries_map(entries).insert(key, value);
    assert forall|q: Seq<char>| left.contains_key(q) <==> right.contains_key(q) by {
        assert(entries_map(entries).contains_key(entries[at].0));
        assert(left.contains_key(q) <==> entry_keys(changed).contains(q));
        assert(entries_map(entries).contains_key(q) <==> entry_keys(entries).contains(q));
    }
    assert forall|q: Seq<char>| left.contains_key(q) implies left[q] == right[q] by {
        assert(entry_keys(changed).contains(q));
        let i = choose|i: int| 0 <= i < changed.len() && entry_keys(changed)[i] == q;
        assert(changed[i].0 == q);
        if i != at {
            assert(entries[i].0 == q);
            assert(entries[at].0 == key);
        }
    }
    assert(left =~= right);
}

/// Putting a new key at its place in the order keeps the key order, and adds
/// the entry to the map.
pub proof fn lemma_insert_entry<V>(
    entries: Seq<(Seq<char>, V)>,
    at: int,
    key: Seq<char>,
    value: V,
)
    requires
        strictly_increasing(entry_keys(entries)),
        0 <= at <= entries.len(),
        forall|i: int| 0 <= i < at ==> key_lt((#[trigger] entries[i]).0, key),
        forall|i: int| at <= i < entries.len() ==> key_lt(key, (#[trigger] entries[i]).0),
    ensures
        strictly_increasing(entry_keys(entries.insert(at, (key, value)))),
        entries_map(entries.insert(at, (key, value))) == entries_map(entries).insert(key, value),
{
    let grown = entries.insert(at, (key, value));
    let keys = entry_keys(entries);
    assert forall|i: int, j: int| 0 <= i < j < grown.len() implies key_lt(
        entry_keys(grown)[i],
        entry_keys(grown)[j],
    ) by {
        if j < at {
            assert(key_lt(keys[i], keys[j]));
        } else if j == at {
            assert(key_lt(entries[i].0, key));
        } else if i < at {
            assert(key_lt(entries[i].0, key));
            assert(key_lt(key, entries[j - 1].0));
            lemma_key_lt_transitive(entries[i].0, key, entries[j - 1].0);
        } else if i == at {
            assert(key_lt(key, entries[j - 1].0));
        } else {
            assert(key_lt(keys[i - 1], keys[j - 1]));
        }
    }
    lemma_sorted_entries(entries);
    lemma_sorted_entries(grown);
    lemma_entries_map_keys(entries);
    lemma_entries_map_keys(grown);
    let left = entries_map(grown);
    let right = entries_map(entries).insert(key, value);
    assert forall|q: Seq<char>| left.contains_key(q) <==> right.contains_key(q) by {
        assert(grown[at].0 == key);
        if entry_keys(entries).contains(q) {
            let i = choose|i: int| 0 <= i < entries.len() && entry_keys(entries)[i] == q;
            if i < at {
                assert(grown[i].0 == q);
            } else {
                assert(grown[i + 1].0 == q);
            }
        }
        if entry_keys(grown).contains(q) {
            let i = choose|i: int| 0 <= i < grown.len() && entry_keys(grown)[i] == q;
            if i < at {
                assert(entry_keys(entries)[i] == q);
            } else if i > at {
                assert(entry_keys(entries)[i - 1] == q);
            }
        }
    }
    assert forall|q: Seq<char>| left.contains_key(q) implies left[q] == right[q] by {
        assert(entry_keys(grown).contains(q));
        let i = choose|i: int| 0 <= i < grown.len() && entry_keys(grown)[i] == q;
        assert(grown[i].0 == q);
        assert(grown[at].0 == key);
        if i < at {
            assert(entries[i].0 == q);
        } else if i > at {
            assert(entries[i - 1].0 == q);
        }
    }
    assert(left =~= right);
}

/// Entries in key order are determined by the map they describe: two
/// listings in key order of the same map are the same listing, whatever the
/// order in which the entries were put in.
pub proof fn lemma_listing_determined<V>(
    first: Seq<(Seq<char>, V)>,
    second: Seq<(Seq<char>, V)>,
)
    requires
        strictly_increasing(entry_keys(first)),
        strictly_increasing(entry_keys(second)),
        entries_map(first) == entries_map(second),
    ensures
        first == second,
    decreases first.len(),
{
    lemma_sorted_entries(first);
    lemma_sorted_entries(second);
    lemma_entries_map_keys(first);
    lemma_entries_map_keys(second);
    if first.len() == 0 {
        assert(first =~= second);
    } else {
        let n = first.len() - 1;
        lemma_last_key(first, second);
        lemma_last_key(second, first);
        lemma_key_lt_trichotomy(first[n].0, second[n].0);
        assert(first[n].0 == second[n].0);
        assert(first[n] == second[n]);
        lemma_front(first);
        lemma_front(second);
        lemma_listing_determined(first.drop_last(), second.drop_last());
        assert(first =~= first.drop_last().push(first[n]));
        assert(second =~= second.drop_last().push(second[n]));
    }
}

/// The last key of a listing in key order does not come before the last key
/// of another listing that holds it.
proof fn lemma_last_key<V>(first: Seq<(Seq<char>, V)>, second: Seq<(Seq<char>, V)>)
    requires
        first.len() > 0,
        strictly_increasing(entry_keys(second)),
        entries_map(first) == entries_map(second),
        entries_map(first).contains_key(first.last().0),
    ensures
        second.len() > 0,
        !key_lt(second.last().0, first.last().0),
{
    lemma_entries_map_keys(second);
    let key = first.last().0;
    assert(entry_keys(second).contains(key));
    let j = choose|j: int| 0 <= j < second.len() && entry_keys(second)[j] == key;
    lemma_key_lt_irreflexive(key);
    if j < second.len() - 1 {
        assert(key_lt(entry_keys(second)[j], entry_keys(second)[second.len() - 1]));
        lemma_key_lt_trichotomy(key, second.last().0);
    }
}

/// Without its last entry, a listing in key order is still in key order and
/// describes the map without the last key.
proof fn lemma_front<V>(entries: Seq<(Seq<char>, V)>)
    requires
        entries.len() > 0,
        strictly_increasing(entry_keys(entries)),
    ensures
        strictly_increasing(entry_keys(entries.drop_last())),
        entries_map(entries.drop_last()) == entries_map(entries).remove(entries.last().0),
{
    let front = entries.drop_last();
    assert forall|i: int, j: int| 0 <= i < j < front.len() implies key_lt(
        entry_keys(front)[i],
        entry_keys(front)[j],
    ) by {
        assert(key_lt(entry_keys(entries)[i], entry_keys(entries)[j]));
    }
    lemma_sorted_entries(entries);
    lemma_entries_map_keys(front);
    if entry_keys(front).contains(entries.last().0) {
        let i = choose|i: int| 0 <= i < front.len() && entry_keys(front)[i] == entries.last().0;
        assert(entries[i].0 == entries[entries.len() - 1].0);
    }
    assert(entries_map(front) =~= entries_map(entries).remove(entries.last().0));
}

/// A map from string keys to values of type `V`, listed in key order.
#[derive(Debug)]
pub struct ValueMap<V> {
    entries: Vec<(String, V)>,
}

impl<V> View for ValueMap<V> {
    type V = Map<Seq<char>, V>;

    open spec fn view(&self) -> Map<Seq<char>, V> {
        entries_map(self.entries())
    }
}

impl<V> ValueMap<V> {
    /// The entries in the order in which the map lists them.
    pub closed spec fn entries(&self) -> Seq<(Seq<char>, V)> {
        entry_views(self.entries@)
    }

    #[verifier::type_invariant]
    spec fn in_key_order(&self) -> bool {
        strictly_increasing(entry_keys(self.entries()))
    }

    /// A map without entries.
    pub fn new() -> (map: Self)
        ensures
            map@ == Map::<Seq<char>, V>::empty(),
            map.entries() == Seq::<(Seq<char>, V)>::empty(),
    {
        let map = ValueMap { entries: Vec::new() };
        assert(map.entries() =~= Seq::<(Seq<char>, V)>::empty());
        map
    }

    /// The number of entries.
    pub fn len(&self) -> (n: usize)
        ensures
            n == self@.len(),
            n == self.entries().len(),
    {
        proof {
            use_type_invariant(self);
            lemma_sorted_entries(self.entries());
        }
        self.entries.len()
    }

    /// Whether the map has no entry.
    pub fn is_empty(&self) -> (b: bool)
        ensures
            b == (self@.len() == 0),
            b == (self@ == Map::<Seq<char>, V>::empty()),
    {
        proof {
            use_type_invariant(self);
            lemma_sorted_entries(self.entries());
            if self.entries().len() > 0 {
                assert(self@.contains_key(self.entries()[0].0));
            }
        }
        self.entries.len() == 0
    }

    /// The entry at place `index` of the listing, counted from 0, if the map
    /// has that many entries.
    pub fn entry_at(&self, index: usize) -> (entry: Option<(&str, &V)>)
        ensures
            strictly_increasing(entry_keys(self.entries())),
            match entry {
                Some((key, value)) => index < self.entries().len() && key@
                    == self.entries()[index as int].0 && *value == self.entries()[index as int].1,
                None => index >= self.entries().len(),
            },
    {
        proof {
            use_type_invariant(self);
        }
        if index < self.entries.len() {
            Some((self.entries[index].0.as_str(), &self.entries[index].1))
        } else {
            None
        }
    }

    /// The place of `key` in the order: the number of entries whose key
    /// comes before it, and whether the entry at that place holds it.
    fn position(&self, key: &str) -> (place: (usize, bool))
        ensures
            place.0 <= self.entries().len(),
            forall|i: int| 0 <= i < place.0 ==> key_lt((#[trigger] self.entries()[i]).0, key@),
            place.1 ==> place.0 < self.entries().len() && self.entries()[place.0 as int].0
                == key@,
            !place.1 ==> forall|i: int|
                place.0 <= i < self.entries().len() ==> key_lt(
                    key@,
                    (#[trigger] self.entries()[i]).0,
                ),
    {
        proof {
            use_type_invariant(self);
        }
        let ghost entries = self.entries();
        let ghost keys = entry_keys(entries);
        let mut low: usize = 0;
        let mut high: usize = self.entries.len();
        while low < high
            invariant
                low <= high <= entries.len(),
                entries == self.entries(),
                keys == entry_keys(entries),
                strictly_increasing(keys),
                forall|i: int| 0 <= i < low ==> key_lt((#[trigger] entries[i]).0, key@),
                forall|i: int| high <= i < entries.len() ==> key_lt(key@, (#[trigger] entries[i]).0),
            decreases high - low,
        {
            let middle = low + (high - low) / 2;
            let order = compare_keys(self.entries[middle].0.as_str(), key);
            assert(entries[middle as int].0 == self.entries@[middle as int].0@);
            match order {
                KeyOrder::Before => {
                    assert forall|i: int| 0 <= i < middle + 1 implies key_lt(
                        (#[trigger] entries[i]).0,
                        key@,
                    ) by {
                        if i < middle {
                            assert(key_lt(keys[i], keys[middle as int]));
                            lemma_key_lt_transitive(keys[i], keys[middle as int], key@);
                        }
                    }
                    low = middle + 1;
                },
                KeyOrder::Same => {
                    assert forall|i: int| 0 <= i < middle implies key_lt(
                        (#[trigger] entries[i]).0,
                        key@,
                    ) by {
                        assert(key_lt(keys[i], keys[middle as int]));
                    }
                    return (middle, true);
                },
                KeyOrder::After => {
                    assert forall|i: int| middle <= i < entries.len() implies key_lt(
                        key@,
                        (#[trigger] entries[i]).0,
                    ) by {
                        if middle < i {
                            assert(key_lt(keys[middle as int], keys[i]));
                            lemma_key_lt_transitive(key@, keys[middle as int], keys[i]);
                        }
                    }
                    high = middle;
                },
            }
        }
        (low, false)
    }

    /// Whether the map holds `key`.
    pub fn contains_key(&self, key: &str) -> (b: bool)
        ensures
            b == self@.contains_key(key@),
    {
        let place = self.position(key);
        proof {
            use_type_invariant(self);
            lemma_sorted_entries(self.entries());
            if !place.1 {
                self.lemma_absent(key@, place.0 as int);
            }
        }
        place.1
    }

    /// The value that the map holds for `key`, if any.
    pub fn get(&self, key: &str) -> (value: Option<&V>)
        ensures
            match value {
                Some(v) => self@.contains_key(key@) && *v == self@[key@],
                None => !self@.contains_key(key@),
            },
    {
        let place = self.position(key);
        proof {
            use_type_invariant(self);
            lemma_sorted_entries(self.entries());
            if !place.1 {
                self.lemma_absent(key@, place.0 as int);
            }
        }
        if place.1 {
            Some(&self.entries[place.0].1)
        } else {
            None
        }
    }

    /// Maps `key` to `value`. Returns the value that the map held for `key`
    /// before, if it held one.
    pub fn insert(&mut self, key: String, value: V) -> (previous: Option<V>)
        ensures
            final(self)@ == old(self)@.insert(key@, value),
            previous == if old(self)@.contains_key(key@) {
                Some(old(self)@[key@])
            } else {
                None::<V>
            },
    {
        let place = self.position(key.as_str());
        let ghost before = self.entries();
        proof {
            use_type_invariant(&*self);
            lemma_sorted_entries(before);
            if !place.1 {
                self.lemma_absent(key@, place.0 as int);
            }
        }
        let mut entries: Vec<(String, V)> = Vec::new();
        core::mem::swap(&mut entries, &mut self.entries);
        assert(entry_views(entries@) == before);
        let previous = if place.1 {
            entries.push((key, value));
            Some(entries.swap_remove(place.0).1)
        } else {
            entries.insert(place.0, (key, value));
            None
        };
        proof {
            if place.1 {
                lemma_replace_value(before, place.0 as int, value);
                assert(entry_views(entries@) =~= before.update(place.0 as int, (key@, value)));
            } else {
                lemma_insert_entry(before, place.0 as int, key@, value);
                assert(entry_views(entries@) =~= before.insert(place.0 as int, (key@, value)));
            }
        }
        self.entries = entries;
        previous
    }

    /// Adds the entries of `other`. Where both maps hold a key, the value of
    /// `other` replaces the one held.
    pub fn merge(&mut self, other: ValueMap<V>)
        ensures
            final(self)@ == old(self)@.union_prefer_right(other@),
    {
        let ghost start = self@;
        let ghost added = other@;
        let mut rest = other.into_entries();
        while rest.len() > 0
            invariant
                strictly_increasing(entry_keys(entry_views(rest@))),
                self@.union_prefer_right(entries_map(entry_views(rest@)))
                    == start.union_prefer_right(added),
            decreases rest.len(),
        {
            let ghost listed = entry_views(rest@);
            let ghost held = self@;
            let last = rest.pop();
            proof {
                lemma_front(listed);
                assert(entry_views(rest@) =~= listed.drop_last());
            }
            if let Some(entry) = last {
                self.insert(entry.0, entry.1);
                assert(self@.union_prefer_right(entries_map(listed.drop_last()))
                    =~= held.union_prefer_right(entries_map(listed)));
            }
        }
        assert(self@.union_prefer_right(entries_map(entry_views(rest@))) =~= self@);
    }

    /// The map of the given entries. Where a key occurs more than once, the
    /// last entry that holds it counts.
    pub fn from_entries(list: Vec<(String, V)>) -> (map: Self)
        ensures
            map@ == entries_map(entry_views(list@)),
    {
        let ghost all = entry_views(list@);
        let mut rest = list;
        let mut map = ValueMap::new();
        assert(entries_map(all).union_prefer_right(map@) =~= entries_map(all));
        while rest.len() > 0
            invariant
                entries_map(entry_views(rest@)).union_prefer_right(map@) == entries_map(all),
            decreases rest.len(),
        {
            let ghost listed = entry_views(rest@);
            let ghost held = map@;
            let last = rest.pop();
            assert(entry_views(rest@) =~= listed.drop_last());
            if let Some(entry) = last {
                if !map.contains_key(entry.0.as_str()) {
                    map.insert(entry.0, entry.1);
                }
                assert(entries_map(listed.drop_last()).union_prefer_right(map@)
                    =~= entries_map(listed).union_prefer_right(held));
            }
        }
        assert(entries_map(entry_views(rest@)).union_prefer_right(map@) =~= map@);
        map
    }

    /// The entries of the map, in key order.
    pub fn into_entries(self) -> (list: Vec<(String, V)>)
        ensures
            entry_views(list@) == self.entries(),
            strictly_increasing(entry_keys(self.entries())),
            entries_map(entry_views(list@)) == self@,
    {
        proof {
            use_type_invariant(&self);
        }
        self.entries
    }

    /// A key that comes after the first `place` keys and before the others
    /// is not in the map.
    proof fn lemma_absent(&self, key: Seq<char>, place: int)
        requires
            0 <= place <= self.entries().len(),
            forall|i: int| 0 <= i < place ==> key_lt((#[trigger] self.entries()[i]).0, key),
            forall|i: int|
                place <= i < self.entries().len() ==> key_lt(key, (#[trigger] self.entries()[i]).0),
        ensures
            !self@.contains_key(key),
    {
        let entries = self.entries();
        lemma_entries_map_keys(entries);
        if entry_keys(entries).contains(key) {
            let i = choose|i: int| 0 <= i < entries.len() && entry_keys(entries)[i] == key;
            assert(entries[i].0 == key);
            lemma_key_lt_irreflexive(key);
        }
    }
}

impl<V: Clone> Clone for ValueMap<V> {
    /// A map with the same keys, each with a clone of its value.
    fn clone(&self) -> (copy: Self)
        ensures
            copy.entries().len() == self.entries().len(),
            forall|i: int|
                0 <= i < self.entries().len() ==> (#[trigger] copy.entries()[i]).0
                    == self.entries()[i].0 && cloned(self.entries()[i].1, copy.entries()[i].1),
            copy@.dom() == self@.dom(),
            forall|key: Seq<char>| #[trigger]
                self@.contains_key(key) ==> cloned(self@[key], copy@[key]),
    {
        proof {
            use_type_invariant(self);
        }
        let mut entries: Vec<(String, V)> = Vec::new();
        let mut i: usize = 0;
        while i < self.entries.len()
            invariant
                i <= self.entries.len(),
                entries.len() == i,
                forall|k: int|
                    0 <= k < i ==> (#[trigger] entries@[k]).0@ == self.entries@[k].0@ && cloned(
                        self.entries@[k].1,
                        entries@[k].1,
                    ),
            decreases self.entries.len() - i,
        {
            let key = self.entries[i].0.clone();
            let value = self.entries[i].1.clone();
            entries.push((key, value));
            i += 1;
        }
        let ghost from = self.entries();
        let ghost to = entry_views(entries@);
        proof {
            assert(entry_keys(to) =~= entry_keys(from));
            lemma_sorted_entries(from);
            lemma_sorted_entries(to);
            lemma_entries_map_keys(from);
            lemma_entries_map_keys(to);
            assert forall|key: Seq<char>|
                entries_map(to).contains_key(key) <==> entries_map(from).contains_key(key) by {
                assert(entries_map(to).contains_key(key) <==> entry_keys(to).contains(key));
                assert(entries_map(from).contains_key(key) <==> entry_keys(from).contains(key));
            }
            assert(entries_map(to).dom() =~= entries_map(from).dom());
            assert forall|key: Seq<char>| #[trigger]
                entries_map(from).contains_key(key) implies cloned(
                entries_map(from)[key],
                entries_map(to)[key],
            ) by {
                assert(entry_keys(from).contains(key));
                let k = choose|k: int| 0 <= k < from.len() && entry_keys(from)[k] == key;
                assert(from[k].0 == key);
                assert(to[k].0 == key);
            }
        }
        ValueMap { entries }
    }
}

} // verus!
