//! Association tables: at most one value per key, kept in insertion order.

use vstd::prelude::*;

use crate::order::{enumerates, items_of, keys_of, lists, Keyed};

verus! {

/// A type whose values serve as keys.
pub trait Key: View + Sized {
    /// Whether two keys are the same.
    fn same_key(&self, other: &Self) -> (same: bool)
        ensures
            same == (self@ == other@),
    ;
}

/// The mapping of a list of pairs; a later pair hides an earlier one of the same key.
pub open spec fn pair_map<K: View, T>(pairs: Seq<(K, T)>) -> Map<K::V, T>
    decreases pairs.len(),
{
    if pairs.len() == 0 {
        Map::empty()
    } else {
        pair_map(pairs.drop_last()).insert(pairs.last().0@, pairs.last().1)
    }
}

/// No key occurs twice.
pub open spec fn keys_distinct<K: View, T>(pairs: Seq<(K, T)>) -> bool {
    forall|i: int, j: int|
        #![trigger pairs[i], pairs[j]]
        0 <= i < j < pairs.len() ==> pairs[i].0@ != pairs[j].0@
}

/// Every pair of a list without repeated keys is in its mapping.
pub proof fn pair_map_holds<K: View, T>(pairs: Seq<(K, T)>, i: int)
    requires
        keys_distinct(pairs),
        0 <= i < pairs.len(),
    ensures
        pair_map(pairs).contains_key(pairs[i].0@),
        pair_map(pairs)[pairs[i].0@] == pairs[i].1,
    decreases pairs.len(),
{
    if i < pairs.len() - 1 {
        assert(pairs.drop_last()[i] == pairs[i]);
        pair_map_holds(pairs.drop_last(), i);
        assert(pairs[i].0@ != pairs[pairs.len() - 1].0@);
    }
}

/// A key that no pair has is not in the mapping.
pub proof fn pair_map_lacks<K: View, T>(pairs: Seq<(K, T)>, key: K::V)
    requires
        forall|i: int| 0 <= i < pairs.len() ==> (#[trigger] pairs[i]).0@ != key,
    ensures
        !pair_map(pairs).contains_key(key),
    decreases pairs.len(),
{
    if pairs.len() > 0 {
        assert(pairs.last() == pairs[pairs.len() - 1]);
        assert forall|i: int| 0 <= i < pairs.drop_last().len() implies (
        #[trigger] pairs.drop_last()[i]).0@ != key by {
            assert(pairs[i].0@ != key);
        }
        pair_map_lacks(pairs.drop_last(), key);
    }
}

/// Every key of the mapping belongs to a pair.
pub proof fn pair_map_index<K: View, T>(pairs: Seq<(K, T)>, key: K::V) -> (i: int)
    requires
        pair_map(pairs).contains_key(key),
    ensures
        0 <= i < pairs.len(),
        pairs[i].0@ == key,
    decreases pairs.len(),
{
    if pairs.last().0@ == key {
        pairs.len() - 1
    } else {
        pair_map_index(pairs.drop_last(), key)
    }
}

/// The mapping of a list without repeated keys has as many keys as there are pairs.
pub proof fn pair_map_len<K: View, T>(pairs: Seq<(K, T)>)
    requires
        keys_distinct(pairs),
    ensures
        pair_map(pairs).dom().finite(),
        pair_map(pairs).len() == pairs.len(),
    decreases pairs.len(),
{
    if pairs.len() > 0 {
        let rest = pairs.drop_last();
        assert forall|i: int, j: int|
            #![trigger rest[i], rest[j]]
            0 <= i < j < rest.len() implies rest[i].0@ != rest[j].0@ by {
            assert(pairs[i].0@ != pairs[j].0@);
        }
        pair_map_len(rest);
        assert forall|i: int| 0 <= i < rest.len() implies (#[trigger] rest[i]).0@
            != pairs.last().0@ by {
            assert(pairs[i].0@ != pairs[pairs.len() - 1].0@);
        }
        pair_map_lacks(rest, pairs.last().0@);
    }
}

proof fn pair_map_update<K: View, T>(pairs: Seq<(K, T)>, i: int, pair: (K, T))
    requires
        keys_distinct(pairs),
        0 <= i < pairs.len(),
        pairs[i].0@ == pair.0@,
    ensures
        pair_map(pairs.update(i, pair)) == pair_map(pairs).insert(pair.0@, pair.1),
    decreases pairs.len(),
{
    let updated = pairs.update(i, pair);
    let rest = pairs.drop_last();
    if i == pairs.len() - 1 {
        assert(updated.drop_last() =~= rest);
        assert(pair_map(updated) =~= pair_map(pairs).insert(pair.0@, pair.1));
    } else {
        assert(updated.drop_last() =~= rest.update(i, pair));
        assert(rest[i] == pairs[i]);
        pair_map_update(rest, i, pair);
        assert(pairs[i].0@ != pairs[pairs.len() - 1].0@);
        assert(pair_map(updated) =~= pair_map(pairs).insert(pair.0@, pair.1));
    }
}

proof fn pair_map_remove<K: View, T>(pairs: Seq<(K, T)>, i: int)
    requires
        keys_distinct(pairs),
        0 <= i < pairs.len(),
    ensures
        pair_map(pairs.remove(i)) == pair_map(pairs).remove(pairs[i].0@),
    decreases pairs.len(),
{
    let rest = pairs.drop_last();
    if i == pairs.len() - 1 {
        assert(pairs.remove(i) =~= rest);
        assert forall|j: int| 0 <= j < rest.len() implies (#[trigger] rest[j]).0@
            != pairs[i].0@ by {
            assert(pairs[j].0@ != pairs[i].0@);
        }
        pair_map_lacks(rest, pairs[i].0@);
        assert(pair_map(rest) =~= pair_map(pairs).remove(pairs[i].0@));
    } else {
        assert(pairs.remove(i).drop_last() =~= rest.remove(i));
        assert(pairs.remove(i).last() == pairs.last());
        assert(rest[i] == pairs[i]);
        pair_map_remove(rest, i);
        assert(pairs[i].0@ != pairs[pairs.len() - 1].0@);
        assert(pair_map(pairs.remove(i)) =~= pair_map(pairs).remove(pairs[i].0@));
    }
}

/// Of the first `n` pairs those with a wanted key were picked, in order; a picked element is held
/// under the position of its pair and carries the wanted value.
pub open spec fn picked<K: View, S, T, V>(
    pairs: Seq<(K, S)>,
    n: int,
    wanted: Map<K::V, V>,
    value: spec_fn(T) -> V,
    chosen: Seq<Keyed<usize, T>>,
) -> bool {
    &&& forall|a: int| 0 <= a < chosen.len() ==> (#[trigger] chosen[a]).key < n
    &&& forall|a: int, b: int|
        #![trigger chosen[a], chosen[b]]
        0 <= a < b < chosen.len() ==> chosen[a].key < chosen[b].key
    &&& forall|a: int|
        0 <= a < chosen.len() ==> wanted.contains_key(
            pairs[(#[trigger] chosen[a]).key as int].0@,
        ) && wanted[pairs[chosen[a].key as int].0@] == value(chosen[a].item)
    &&& forall|j: int|
        0 <= j < n && wanted.contains_key((#[trigger] pairs[j]).0@) ==> keys_of(chosen).contains(
            j as usize,
        )
}

/// Picking the next pair, when its key is wanted.
pub proof fn picked_next<K: View, S, T, V>(
    pairs: Seq<(K, S)>,
    n: int,
    wanted: Map<K::V, V>,
    value: spec_fn(T) -> V,
    chosen: Seq<Keyed<usize, T>>,
    pair: Keyed<usize, T>,
)
    requires
        picked(pairs, n, wanted, value, chosen),
        0 <= n < pairs.len() <= usize::MAX,
        pair.key == n,
        wanted.contains_key(pairs[n].0@),
        wanted[pairs[n].0@] == value(pair.item),
    ensures
        picked(pairs, n + 1, wanted, value, chosen.push(pair)),
{
    let grown = chosen.push(pair);
    assert forall|j: int|
        0 <= j < n + 1 && wanted.contains_key((#[trigger] pairs[j]).0@) implies keys_of(
        grown,
    ).contains(j as usize) by {
        if j == n {
            assert(keys_of(grown)[chosen.len() as int] == j as usize);
        } else {
            let a = choose|a: int| 0 <= a < chosen.len() && keys_of(chosen)[a] == j as usize;
            assert(keys_of(grown)[a] == j as usize);
        }
    }
}

/// Passing over the next pair, when its key is not wanted.
pub proof fn passed_over<K: View, S, T, V>(
    pairs: Seq<(K, S)>,
    n: int,
    wanted: Map<K::V, V>,
    value: spec_fn(T) -> V,
    chosen: Seq<Keyed<usize, T>>,
)
    requires
        picked(pairs, n, wanted, value, chosen),
        0 <= n < pairs.len() <= usize::MAX,
        !wanted.contains_key(pairs[n].0@),
    ensures
        picked(pairs, n + 1, wanted, value, chosen),
{
}

/// Positions of picked elements are distinct.
pub proof fn picked_keys_distinct<K: View, S, T, V>(
    pairs: Seq<(K, S)>,
    n: int,
    wanted: Map<K::V, V>,
    value: spec_fn(T) -> V,
    chosen: Seq<Keyed<usize, T>>,
)
    requires
        picked(pairs, n, wanted, value, chosen),
    ensures
        keys_of(chosen).no_duplicates(),
{
    assert forall|a: int, b: int|
        0 <= a < chosen.len() && 0 <= b < chosen.len() && a != b implies keys_of(chosen)[a]
        != keys_of(chosen)[b] by {
        if a < b {
            assert(chosen[a].key < chosen[b].key);
        } else {
            assert(chosen[b].key < chosen[a].key);
        }
    }
}

/// The picked elements, in whatever order, list the wanted values.
pub proof fn picked_lists<K: View, S, T, V>(
    pairs: Seq<(K, S)>,
    wanted: Map<K::V, V>,
    value: spec_fn(T) -> V,
    chosen: Seq<Keyed<usize, T>>,
    ordered: Seq<Keyed<usize, T>>,
)
    requires
        keys_distinct(pairs),
        pairs.len() <= usize::MAX,
        picked(pairs, pairs.len() as int, wanted, value, chosen),
        forall|key: K::V| wanted.contains_key(key) ==> #[trigger] pair_map(pairs).contains_key(key),
        keys_of(ordered).no_duplicates(),
        forall|pair: Keyed<usize, T>| #[trigger] ordered.contains(pair) <==> chosen.contains(pair),
    ensures
        lists(items_of(ordered).map_values(value), wanted),
{
    let keys = Seq::new(ordered.len(), |a: int| pairs[ordered[a].key as int].0@);
    let values = items_of(ordered).map_values(value);
    assert forall|a: int| 0 <= a < ordered.len() implies (#[trigger] ordered[a]).key < pairs.len()
        && wanted.contains_key(keys[a]) && wanted[keys[a]] == values[a] by {
        assert(ordered.contains(ordered[a]));
        let b = choose|b: int| 0 <= b < chosen.len() && chosen[b] == ordered[a];
        assert(chosen[b].key < pairs.len());
    }
    assert(keys.no_duplicates()) by {
        assert forall|a: int, b: int|
            0 <= a < keys.len() && 0 <= b < keys.len() && a != b implies keys[a] != keys[b] by {
            assert(keys_of(ordered)[a] != keys_of(ordered)[b]);
            let x = ordered[a].key as int;
            let y = ordered[b].key as int;
            if x < y {
                assert(pairs[x].0@ != pairs[y].0@);
            } else {
                assert(pairs[y].0@ != pairs[x].0@);
            }
        }
    }
    assert forall|key: K::V| #[trigger] keys.contains(key) <==> wanted.contains_key(key) by {
        if keys.contains(key) {
            let a = choose|a: int| 0 <= a < keys.len() && keys[a] == key;
            assert(ordered[a].key < pairs.len());
        }
        if wanted.contains_key(key) {
            assert(pair_map(pairs).contains_key(key));
            let j = pair_map_index(pairs, key);
            assert(keys_of(chosen).contains(j as usize));
            let b = choose|b: int| 0 <= b < chosen.len() && keys_of(chosen)[b] == j as usize;
            assert(chosen.contains(chosen[b]));
            assert(ordered.contains(chosen[b]));
            let a = choose|a: int| 0 <= a < ordered.len() && ordered[a] == chosen[b];
            assert(keys[a] == key);
        }
    }
    assert(enumerates(keys, values, wanted));
}

/// A mapping from keys to values that keeps the order in which keys came.
#[derive(Debug)]
pub struct Table<K: Key, T> {
    entries: Vec<(K, T)>,
}

impl<K: Key, T> View for Table<K, T> {
    type V = Map<K::V, T>;

    closed spec fn view(&self) -> Map<K::V, T> {
        pair_map(self.entries@)
    }
}

impl<K: Key, T> Table<K, T> {
    #[verifier::type_invariant]
    spec fn distinct(self) -> bool {
        keys_distinct(self.entries@)
    }

    /// The pairs in insertion order.
    pub closed spec fn pairs(&self) -> Seq<(K, T)> {
        self.entries@
    }

    /// The empty table.
    pub fn new() -> (table: Self)
        ensures
            table@ == Map::<K::V, T>::empty(),
    {
        Table { entries: Vec::new() }
    }

    /// Number of keys.
    pub fn len(&self) -> (len: usize)
        ensures
            len == self@.len(),
            self@.dom().finite(),
    {
        proof {
            use_type_invariant(self);
            pair_map_len(self.entries@);
        }
        self.entries.len()
    }

    /// The pairs of the table, in insertion order.
    pub fn entries(&self) -> (entries: &Vec<(K, T)>)
        ensures
            keys_distinct(entries@),
            self@ == pair_map(entries@),
            entries@ == self.pairs(),
    {
        proof {
            use_type_invariant(self);
        }
        &self.entries
    }

    fn position(&self, key: &K) -> (position: Option<usize>)
        ensures
            position is Some <==> self@.contains_key(key@),
            position matches Some(i) ==> i < self.entries@.len() && self.entries@[i as int].0@
                == key@ && self@[key@] == self.entries@[i as int].1,
    {
        proof {
            use_type_invariant(self);
        }
        let mut i: usize = 0;
        while i < self.entries.len()
            invariant
                i <= self.entries.len(),
                keys_distinct(self.entries@),
                forall|j: int| 0 <= j < i ==> (#[trigger] self.entries@[j]).0@ != key@,
            decreases self.entries.len() - i,
        {
            if self.entries[i].0.same_key(key) {
                proof {
                    pair_map_holds(self.entries@, i as int);
                }
                return Some(i);
            }
            i += 1;
        }
        proof {
            pair_map_lacks(self.entries@, key@);
        }
        None
    }

    /// Whether `key` has a value.
    pub fn contains_key(&self, key: &K) -> (contains: bool)
        ensures
            contains == self@.contains_key(key@),
    {
        self.position(key).is_some()
    }

    /// The value of `key`, if it has one.
    pub fn get(&self, key: &K) -> (value: Option<&T>)
        ensures
            value is Some <==> self@.contains_key(key@),
            value matches Some(v) ==> *v == self@[key@],
    {
        match self.position(key) {
            Some(i) => Some(&self.entries[i].1),
            None => None,
        }
    }

    /// Puts `value` under `key`, in place of an earlier value, which is returned.
    pub fn insert(&mut self, key: K, value: T) -> (earlier: Option<T>)
        ensures
            final(self)@ == old(self)@.insert(key@, value),
            earlier is Some <==> old(self)@.contains_key(key@),
            earlier matches Some(v) ==> v == old(self)@[key@],
    {
        proof {
            use_type_invariant(&*self);
        }
        let found = self.position(&key);
        let mut entries: Vec<(K, T)> = Vec::new();
        core::mem::swap(&mut entries, &mut self.entries);
        let ghost before = entries@;
        match found {
            Some(i) => {
                proof {
                    pair_map_update(before, i as int, (key, value));
                }
                let mut pair = (key, value);
                let ghost inserted = pair;
                let slot = &mut entries[i];
                core::mem::swap(slot, &mut pair);
                assert(entries@ =~= before.update(i as int, inserted));
                assert(keys_distinct(entries@)) by {
                    assert forall|a: int, b: int|
                        #![trigger entries@[a], entries@[b]]
                        0 <= a < b < entries@.len() implies entries@[a].0@ != entries@[b].0@ by {
                        assert(before[a].0@ != before[b].0@);
                    }
                }
                self.entries = entries;
                Some(pair.1)
            },
            None => {
                let ghost inserted = (key, value);
                entries.push((key, value));
                assert(entries@.drop_last() =~= before);
                assert(keys_distinct(entries@)) by {
                    assert forall|a: int, b: int|
                        #![trigger entries@[a], entries@[b]]
                        0 <= a < b < entries@.len() implies entries@[a].0@ != entries@[b].0@ by {
                        if b < before.len() {
                            assert(before[a].0@ != before[b].0@);
                        } else {
                            pair_map_holds(before, a);
                        }
                    }
                }
                self.entries = entries;
                None
            },
        }
    }

    /// Takes the value of `key` out, if it has one.
    pub fn remove(&mut self, key: &K) -> (removed: Option<T>)
        ensures
            final(self)@ == old(self)@.remove(key@),
            removed is Some <==> old(self)@.contains_key(key@),
            removed matches Some(v) ==> v == old(self)@[key@],
    {
        proof {
            use_type_invariant(&*self);
        }
        match self.position(key) {
            Some(i) => {
                let mut entries: Vec<(K, T)> = Vec::new();
                core::mem::swap(&mut entries, &mut self.entries);
                let ghost before = entries@;
                proof {
                    pair_map_remove(before, i as int);
                }
                let pair = entries.remove(i);
                assert(entries@ =~= before.remove(i as int));
                assert(keys_distinct(entries@)) by {
                    assert forall|a: int, b: int|
                        #![trigger entries@[a], entries@[b]]
                        0 <= a < b < entries@.len() implies entries@[a].0@ != entries@[b].0@ by {
                        let x = if a < i {
                            a
                        } else {
                            a + 1
                        };
                        let y = if b < i {
                            b
                        } else {
                            b + 1
                        };
                        assert(before[x].0@ != before[y].0@);
                    }
                }
                self.entries = entries;
                Some(pair.1)
            },
            None => {
                assert(old(self)@.remove(key@) =~= old(self)@);
                None
            },
        }
    }
}

} // verus!
