//! What holds of every map, stated over the entries that the contracts of
//! [`ValueMap`](crate::ValueMap) speak of.

use crate::model::{
    built, covers, covers_is_equal, distinct_keys, ensured, entry_equal, equal, equal_reflexive,
    has_key, index_of, inserted, inserted_distinct, key_at, key_found, position, removed,
    value_of, witness, Entries, ValueView,
};
use vstd::prelude::*;

verus! {

/// Inserting pairs with distinct keys into an empty map, one after the other,
/// gives a map that iterates over exactly those pairs in exactly that order.
pub proof fn insertion_order_is_kept(s: Entries)
    requires
        distinct_keys(s),
    ensures
        built(s) == s,
    decreases s.len(),
{
    if s.len() > 0 {
        let head = s.drop_last();
        let k = s.last().0;
        assert forall|i: int, j: int|
            #![trigger head[i], head[j]]
            0 <= i < head.len() && 0 <= j < head.len() && i != j implies !equal(
            head[i].0,
            head[j].0,
        ) by {
            assert(head[i] == s[i] && head[j] == s[j]);
        }
        insertion_order_is_kept(head);
        assert forall|i: int| !key_at(head, k, i) by {
            if 0 <= i < head.len() {
                assert(head[i] == s[i]);
                assert(!equal(s[s.len() - 1].0, s[i].0));
            }
        }
        assert(head.push(s.last()) =~= s);
    } else {
        assert(s =~= Seq::empty());
    }
}

/// Inserting under a key that the map has changes the value of that key's
/// entry and nothing else: the length, every key and every place stay, and so
/// do the values of the other entries.
pub proof fn overwrite_keeps_position(e: Entries, k: ValueView, v: ValueView)
    requires
        distinct_keys(e),
        has_key(e, k),
    ensures
        inserted(e, k, v).len() == e.len(),
        inserted(e, k, v)[index_of(e, k)].1 == v,
        forall|j: int| 0 <= j < e.len() ==> (#[trigger] inserted(e, k, v)[j]).0 == e[j].0,
        forall|j: int|
            0 <= j < e.len() && j != index_of(e, k) ==> #[trigger] inserted(e, k, v)[j] == e[j],
{
}

/// Removing the key of the entry at position `i` puts the last entry at `i`,
/// unless `i` was the last position; every other entry keeps its place, and the
/// map is one entry shorter. Removing the last entry reorders nothing.
pub proof fn removal_swaps_in_the_last(e: Entries, k: ValueView)
    requires
        distinct_keys(e),
        has_key(e, k),
    ensures
        removed(e, k).len() == e.len() - 1,
        index_of(e, k) < e.len() - 1 ==> removed(e, k)[index_of(e, k)] == e.last(),
        forall|j: int|
            0 <= j < e.len() - 1 && j != index_of(e, k) ==> #[trigger] removed(e, k)[j] == e[j],
        index_of(e, k) == e.len() - 1 ==> removed(e, k) == e.drop_last(),
        !has_key(removed(e, k), k),
{
    let i = index_of(e, k);
    let f = removed(e, k);
    if i == e.len() - 1 {
        assert(f =~= e.drop_last());
    }
    assert forall|j: int| !key_at(f, k, j) by {
        if key_at(f, k, j) {
            let j0 = if j == i {
                e.len() - 1
            } else {
                j
            };
            assert(f[j] == e[j0]);
            key_found(e, k, j0);
        }
    }
}

/// A key that the map does not have reads as `Null`, and removing it leaves
/// the map as it is.
pub proof fn miss_is_null(e: Entries, k: ValueView)
    requires
        !has_key(e, k),
    ensures
        value_of(e, k) == ValueView::Null,
        removed(e, k) == e,
{
}

/// An indexed write under a key that the map does not have appends an entry
/// that holds `Null`, and the key then reads as `Null` until something else is
/// written.
pub proof fn indexed_write_creates(e: Entries, k: ValueView)
    requires
        distinct_keys(e),
        !has_key(e, k),
    ensures
        ensured(e, k) == e.push((k, ValueView::Null)),
        distinct_keys(ensured(e, k)),
        has_key(ensured(e, k), k),
        index_of(ensured(e, k), k) == e.len(),
        value_of(ensured(e, k), k) == ValueView::Null,
{
    let f = ensured(e, k);
    inserted_distinct(e, k, ValueView::Null);
    equal_reflexive(k);
    assert(key_at(f, k, e.len() as int));
    key_found(f, k, e.len() as int);
}

/// A map that is written out entry by entry, in iteration order, and read back
/// by inserting what was written, in that order, comes back with the same
/// entries in the same order, and so is equal to the map that was written.
pub proof fn round_trip(e: Entries)
    requires
        distinct_keys(e),
    ensures
        built(e) == e,
        equal(ValueView::Object(built(e)), ValueView::Object(e)),
{
    insertion_order_is_kept(e);
    equal_reflexive(ValueView::Object(e));
}

/// Pairs with distinct keys have distinct keys in whatever order they are
/// listed.
pub proof fn reordering_keeps_keys_distinct(s: Entries, t: Entries)
    requires
        distinct_keys(s),
        s.to_multiset() == t.to_multiset(),
    ensures
        distinct_keys(t),
{
    assert forall|i: int, j: int| 0 <= i < s.len() && 0 <= j < s.len() && i != j implies s[i]
        != s[j] by {
        equal_reflexive(s[i].0);
    }
    s.lemma_multiset_has_no_duplicates();
    t.lemma_multiset_has_no_duplicates_conv();
    s.to_multiset_ensures();
    t.to_multiset_ensures();
    assert forall|i: int, j: int|
        #![trigger t[i], t[j]]
        0 <= i < t.len() && 0 <= j < t.len() && i != j implies !equal(t[i].0, t[j].0) by {
        assert(t.contains(t[i]) && t.contains(t[j]));
        assert(s.to_multiset().count(t[i]) > 0 && s.to_multiset().count(t[j]) > 0);
        let a = choose|a: int| 0 <= a < s.len() && s[a] == t[i];
        let b = choose|b: int| 0 <= b < s.len() && s[b] == t[j];
        assert(!equal(s[a].0, s[b].0));
    }
}

/// Two maps that took the same pairs, each key once, in different orders are
/// equal, though they iterate in different orders.
pub proof fn equality_ignores_order(s: Entries, t: Entries)
    requires
        distinct_keys(s),
        s.to_multiset() == t.to_multiset(),
    ensures
        equal(ValueView::Object(built(s)), ValueView::Object(built(t))),
{
    reordering_keeps_keys_distinct(s, t);
    insertion_order_is_kept(s);
    insertion_order_is_kept(t);
    s.to_multiset_ensures();
    t.to_multiset_ensures();
    assert forall|i: int| #[trigger] position(s, i) implies exists|j: int| #[trigger]
        witness(t, j) && entry_equal(s[i], t[j]) by {
        assert(s.contains(s[i]));
        assert(t.to_multiset().count(s[i]) > 0);
        assert(t.contains(s[i]));
        let j = choose|j: int| 0 <= j < t.len() && t[j] == s[i];
        equal_reflexive(s[i].0);
        equal_reflexive(s[i].1);
        assert(witness(t, j));
    }
    assert(covers(s, t));
    covers_is_equal(s, t);
}

} // verus!
