//! Sorting of collections whose elements carry a total preorder.

use vstd::prelude::*;
use vstd::seq_lib::*;

verus! {

/// A type whose values are listed in a fixed order.
pub trait Ranked: Sized {
    /// `self` is listed no later than `other`.
    spec fn at_most(&self, other: &Self) -> bool;

    /// Decides [`Ranked::at_most`].
    fn precedes(&self, other: &Self) -> (precedes: bool)
        ensures
            precedes == self.at_most(other),
    ;

    /// Any two values can be listed one after the other.
    proof fn at_most_total(a: Self, b: Self)
        ensures
            a.at_most(&b) || b.at_most(&a),
    ;

    /// The order is transitive.
    proof fn at_most_transitive(a: Self, b: Self, c: Self)
        requires
            a.at_most(&b),
            b.at_most(&c),
        ensures
            a.at_most(&c),
    ;
}

/// Every element is listed no later than those behind it.
pub open spec fn in_order<T: Ranked>(items: Seq<T>) -> bool {
    forall|i: int, j: int|
        #![trigger items[i], items[j]]
        0 <= i < j < items.len() ==> items[i].at_most(&items[j])
}

/// Sorts `items`: the result holds the same elements in order.
pub fn sorted<T: Ranked>(items: Vec<T>) -> (result: Vec<T>)
    ensures
        in_order(result@),
        result@.to_multiset() == items@.to_multiset(),
        result@.len() == items@.len(),
{
    let mut rest = items;
    let mut result: Vec<T> = Vec::new();
    proof {
        assert(items@.to_multiset() =~= result@.to_multiset().add(rest@.to_multiset())) by {
            broadcast use group_to_multiset_ensures;

        }
    }
    while rest.len() > 0
        invariant
            in_order(result@),
            items@.to_multiset() == result@.to_multiset().add(rest@.to_multiset()),
        decreases rest.len(),
    {
        let ghost rest_before = rest@;
        let ghost before = result@;
        let item = rest.pop().unwrap();
        let mut at: usize = 0;
        while at < result.len() && result[at].precedes(&item)
            invariant
                at <= result.len(),
                result@ == before,
                forall|i: int| #![trigger result@[i]] 0 <= i < at ==> result@[i].at_most(&item),
            decreases result.len() - at,
        {
            at += 1;
        }
        result.insert(at, item);
        proof {
            broadcast use group_to_multiset_ensures;

            assert(rest_before =~= rest@.push(item));
            assert(result@ =~= before.insert(at as int, item));
            assert(items@.to_multiset() =~= result@.to_multiset().add(rest@.to_multiset()));
            assert forall|i: int, j: int|
                #![trigger result@[i], result@[j]]
                0 <= i < j < result@.len() implies result@[i].at_most(&result@[j]) by {
                if j == at {
                } else if i == at {
                    T::at_most_total(item, before[at as int]);
                    if j - 1 > at {
                        T::at_most_transitive(item, before[at as int], before[j - 1]);
                    }
                } else if i < at && j > at {
                    assert(before[i].at_most(&before[j - 1]));
                } else if i > at {
                    assert(before[i - 1].at_most(&before[j - 1]));
                } else {
                    assert(before[i].at_most(&before[j]));
                }
            }
        }
    }
    proof {
        broadcast use group_to_multiset_ensures;

        assert(rest@ =~= Seq::empty());
        assert(result@.to_multiset() =~= items@.to_multiset());
        assert(result@.len() == result@.to_multiset().len());
        assert(items@.len() == items@.to_multiset().len());
    }
    result
}

/// `values` holds the values of `wanted`, one per key; `keys` tells which value belongs to which.
pub open spec fn enumerates<K, V>(keys: Seq<K>, values: Seq<V>, wanted: Map<K, V>) -> bool {
    &&& keys.no_duplicates()
    &&& keys.len() == values.len()
    &&& forall|key: K| #[trigger] keys.contains(key) <==> wanted.contains_key(key)
    &&& forall|i: int| 0 <= i < keys.len() ==> values[i] == wanted[#[trigger] keys[i]]
}

/// `values` holds the values of `wanted`, one per key.
pub open spec fn lists<K, V>(values: Seq<V>, wanted: Map<K, V>) -> bool {
    exists|keys: Seq<K>| #[trigger] enumerates(keys, values, wanted)
}

/// A listing has as many values as there are keys.
pub proof fn listing_length<K, V>(values: Seq<V>, wanted: Map<K, V>)
    requires
        lists(values, wanted),
    ensures
        wanted.dom().finite(),
        values.len() == wanted.len(),
{
    let keys = choose|keys: Seq<K>| #[trigger] enumerates(keys, values, wanted);
    keys.unique_seq_to_set();
    seq_to_set_is_finite(keys);
    assert(keys.to_set() =~= wanted.dom()) by {
        assert forall|key: K| keys.to_set().contains(key) <==> wanted.dom().contains(key) by {
            assert(keys.contains(key) <==> wanted.contains_key(key));
        }
    }
}

/// An element of a collection together with the key under which the collection holds it.
pub struct Keyed<K, T> {
    /// The key.
    pub key: K,
    /// The element.
    pub item: T,
}

impl<K, T: Ranked> Ranked for Keyed<K, T> {
    open spec fn at_most(&self, other: &Self) -> bool {
        self.item.at_most(&other.item)
    }

    fn precedes(&self, other: &Self) -> (precedes: bool) {
        self.item.precedes(&other.item)
    }

    proof fn at_most_total(a: Self, b: Self) {
        T::at_most_total(a.item, b.item);
    }

    proof fn at_most_transitive(a: Self, b: Self, c: Self) {
        T::at_most_transitive(a.item, b.item, c.item);
    }
}

/// Keys of keyed elements.
pub open spec fn keys_of<K, T>(pairs: Seq<Keyed<K, T>>) -> Seq<K> {
    pairs.map_values(|pair: Keyed<K, T>| pair.key)
}

/// Elements without their keys.
pub open spec fn items_of<K, T>(pairs: Seq<Keyed<K, T>>) -> Seq<T> {
    pairs.map_values(|pair: Keyed<K, T>| pair.item)
}

proof fn distinct_keys_stay_distinct<K, T>(a: Seq<Keyed<K, T>>, b: Seq<Keyed<K, T>>)
    requires
        a.to_multiset() == b.to_multiset(),
        keys_of(a).no_duplicates(),
    ensures
        keys_of(b).no_duplicates(),
{
    assert(a.no_duplicates()) by {
        assert forall|i: int, j: int| 0 <= i < a.len() && 0 <= j < a.len() && i != j implies a[i]
            != a[j] by {
            assert(keys_of(a)[i] != keys_of(a)[j]);
        }
    }
    a.lemma_multiset_has_no_duplicates();
    b.lemma_multiset_has_no_duplicates_conv();
    assert forall|i: int, j: int| 0 <= i < b.len() && 0 <= j < b.len() && i != j implies keys_of(
        b,
    )[i] != keys_of(b)[j] by {
        same_elements_contain(a, b, b[i]);
        same_elements_contain(a, b, b[j]);
        assert(b.contains(b[i]));
        assert(b.contains(b[j]));
        let x = choose|x: int| 0 <= x < a.len() && a[x] == b[i];
        let y = choose|y: int| 0 <= y < a.len() && a[y] == b[j];
        assert(keys_of(a)[x] == b[i].key);
        assert(keys_of(a)[y] == b[j].key);
    }
}

/// Sorts keyed elements: the result holds the same pairs in order, and keys stay distinct.
pub fn sorted_pairs<K, T: Ranked>(pairs: Vec<Keyed<K, T>>) -> (result: Vec<Keyed<K, T>>)
    requires
        keys_of(pairs@).no_duplicates(),
    ensures
        in_order(result@),
        keys_of(result@).no_duplicates(),
        forall|pair: Keyed<K, T>| #[trigger] result@.contains(pair) <==> pairs@.contains(pair),
        result@.len() == pairs@.len(),
{
    let result = sorted(pairs);
    proof {
        distinct_keys_stay_distinct(pairs@, result@);
        assert forall|pair: Keyed<K, T>| #[trigger] result@.contains(pair) <==> pairs@.contains(
            pair,
        ) by {
            same_elements_contain(pairs@, result@, pair);
        }
    }
    result
}

/// Takes the keys off.
pub fn without_keys<K, T>(pairs: Vec<Keyed<K, T>>) -> (items: Vec<T>)
    ensures
        items@ == items_of(pairs@),
{
    let mut rest = pairs;
    let mut items: Vec<T> = Vec::new();
    while rest.len() > 0
        invariant
            rest@.len() <= pairs@.len(),
            rest@ == pairs@.take(rest@.len() as int),
            items@ == items_of(pairs@).skip(rest@.len() as int),
        decreases rest.len(),
    {
        let ghost before = rest@;
        let pair = rest.pop().unwrap();
        items.insert(0, pair.item);
        assert(pair == pairs@[before.len() - 1]);
        assert(rest@ =~= pairs@.take(rest@.len() as int));
        assert(items@ =~= items_of(pairs@).skip(rest@.len() as int));
    }
    assert(items@ =~= items_of(pairs@));
    items
}

/// Sequences with the same elements hold the same values.
pub proof fn same_elements_contain<T>(a: Seq<T>, b: Seq<T>, x: T)
    requires
        a.to_multiset() == b.to_multiset(),
    ensures
        a.contains(x) == b.contains(x),
{
    broadcast use group_to_multiset_ensures;

    assert(a.contains(x) <==> a.to_multiset().count(x) > 0);
    assert(b.contains(x) <==> b.to_multiset().count(x) > 0);
}

/// Two listings of the same values hold the same elements.
pub proof fn listings_hold_the_same<K, V>(a: Seq<V>, b: Seq<V>, wanted: Map<K, V>)
    requires
        lists(a, wanted),
        lists(b, wanted),
    ensures
        a.to_multiset() == b.to_multiset(),
{
    let x = choose|keys: Seq<K>| #[trigger] enumerates(keys, a, wanted);
    let y = choose|keys: Seq<K>| #[trigger] enumerates(keys, b, wanted);
    same_enumerated(x, a, y, b, wanted);
}

proof fn same_enumerated<K, V>(
    x: Seq<K>,
    a: Seq<V>,
    y: Seq<K>,
    b: Seq<V>,
    wanted: Map<K, V>,
)
    requires
        enumerates(x, a, wanted),
        enumerates(y, b, wanted),
    ensures
        a.to_multiset() == b.to_multiset(),
    decreases x.len(),
{
    broadcast use group_to_multiset_ensures;

    if x.len() == 0 {
        if y.len() > 0 {
            assert(y.contains(y[0]));
            assert(x.contains(y[0]));
        }
        assert(a =~= b);
    } else {
        let key = x.last();
        assert(x.contains(key));
        assert(y.contains(key));
        let j = choose|j: int| 0 <= j < y.len() && y[j] == key;
        let rest = wanted.remove(key);
        let x1 = x.drop_last();
        let a1 = a.drop_last();
        let y1 = y.remove(j);
        let b1 = b.remove(j);
        assert forall|k: K| #[trigger] x1.contains(k) <==> rest.contains_key(k) by {
            if x1.contains(k) {
                let i = choose|i: int| 0 <= i < x1.len() && x1[i] == k;
                assert(x[i] == k);
                assert(x.contains(k));
            }
            if rest.contains_key(k) {
                assert(x.contains(k));
                let i = choose|i: int| 0 <= i < x.len() && x[i] == k;
                assert(x1[i] == k);
            }
        }
        assert forall|k: K| #[trigger] y1.contains(k) <==> rest.contains_key(k) by {
            if y1.contains(k) {
                let i = choose|i: int| 0 <= i < y1.len() && y1[i] == k;
                if i < j {
                    assert(y[i] == k);
                } else {
                    assert(y[i + 1] == k);
                }
                assert(y.contains(k));
            }
            if rest.contains_key(k) {
                assert(y.contains(k));
                let i = choose|i: int| 0 <= i < y.len() && y[i] == k;
                if i < j {
                    assert(y1[i] == k);
                } else {
                    assert(y1[i - 1] == k);
                }
            }
        }
        assert forall|i: int| 0 <= i < x1.len() implies a1[i] == rest[#[trigger] x1[i]] by {
            assert(a[i] == wanted[x[i]]);
        }
        assert forall|i: int| 0 <= i < y1.len() implies b1[i] == rest[#[trigger] y1[i]] by {
            if i < j {
                assert(b[i] == wanted[y[i]]);
            } else {
                assert(b[i + 1] == wanted[y[i + 1]]);
            }
        }
        same_enumerated(x1, a1, y1, b1, rest);
        assert(a =~= a1.push(a.last()));
        assert(a.last() == wanted[x[x.len() - 1]]);
        assert(b[j] == wanted[y[j]]);
        assert(b =~= b1.insert(j, b[j]));
        assert(a.to_multiset() =~= b.to_multiset());
    }
}

/// What is computed from the same elements is the same.
pub proof fn mapped_elements_are_the_same<V, W>(a: Seq<V>, b: Seq<V>, f: spec_fn(V) -> W)
    requires
        a.to_multiset() == b.to_multiset(),
    ensures
        a.map_values(f).to_multiset() == b.map_values(f).to_multiset(),
    decreases a.len(),
{
    broadcast use group_to_multiset_ensures;

    assert(a.len() == a.to_multiset().len());
    assert(b.len() == b.to_multiset().len());
    if a.len() == 0 {
        assert(a.map_values(f) =~= b.map_values(f));
    } else {
        let x = a.last();
        assert(a.contains(a[a.len() - 1]));
        same_elements_contain(a, b, x);
        let j = choose|j: int| 0 <= j < b.len() && b[j] == x;
        let a1 = a.drop_last();
        let b1 = b.remove(j);
        assert(a =~= a1.push(x));
        assert(b =~= b1.insert(j, x));
        assert(a1.to_multiset() =~= a.to_multiset().remove(x));
        assert(b1.to_multiset() =~= b.to_multiset().remove(x));
        mapped_elements_are_the_same(a1, b1, f);
        assert(a.map_values(f) =~= a1.map_values(f).push(f(x)));
        assert(b.map_values(f) =~= b1.map_values(f).insert(j, f(x)));
        assert(a.map_values(f).to_multiset() =~= b.map_values(f).to_multiset());
    }
}

/// In a list that is in order no item stands behind one that it should stand before.
pub proof fn ordered_items_never_go_back<T: Ranked>(items: Seq<T>, i: int, j: int)
    requires
        in_order(items),
        0 <= i < j < items.len(),
    ensures
        items[i].at_most(&items[j]),
{
}

} // verus!
