//! The mathematical model that every contract of this crate is stated over.
//!
//! A value is viewed as a finite tree, a map as the sequence of its entries in
//! iteration order. Keys are compared with [`equal`], which looks through the
//! order of nested maps, so two keys may be equal without being identical.

use vstd::prelude::*;
use vstd::relations::injective_on;
use vstd::set_lib::{lemma_int_range, lemma_map_size, lemma_subset_equality, set_int_range};

verus! {

/// What a value holds, as a finite tree.
///
/// `F64` carries the IEEE 754 binary64 bit pattern of a floating-point number.
/// `Object` carries the entries of a map in iteration order.
pub enum ValueView {
    Null,
    Bool(bool),
    I64(i64),
    U64(u64),
    F64(u64),
    String(Seq<char>),
    Binary(Seq<u8>),
    Array(Seq<ValueView>),
    Object(Seq<(ValueView, ValueView)>),
}

/// The entries of a map, in iteration order.
pub type Entries = Seq<(ValueView, ValueView)>;

/// `i` is a position in `e`.
///
/// The universal quantifiers below are instantiated by this predicate.
pub open spec fn position(e: Entries, i: int) -> bool {
    0 <= i < e.len()
}

/// `j` is a position in `e`, put forward as the one that exists.
///
/// The existential quantifiers below are instantiated by this predicate.
pub open spec fn witness(e: Entries, j: int) -> bool {
    0 <= j < e.len()
}

/// Equality of values.
///
/// Two values are equal when they are of the same variant and hold equal
/// payloads: scalars, strings and byte strings hold the same data (for `F64`,
/// the same bit pattern); arrays are equal element by element, in order; maps
/// have the same number of entries, and every entry of either has an entry of
/// the other with an equal key and an equal value, whatever the order.
pub open spec fn equal(a: ValueView, b: ValueView) -> bool
    decreases a,
{
    match a {
        ValueView::Array(x) => {
            &&& b matches ValueView::Array(y)
            &&& x.len() == y.len()
            &&& forall|i: int| 0 <= i < x.len() ==> equal(#[trigger] x[i], y[i])
        },
        ValueView::Object(x) => {
            &&& b matches ValueView::Object(y)
            &&& x.len() == y.len()
            &&& forall|i: int| #[trigger]
                position(x, i) ==> exists|j: int|
                    #[trigger] witness(y, j) && equal(x[i].0, y[j].0) && equal(x[i].1, y[j].1)
            &&& forall|j: int| #[trigger]
                position(y, j) ==> exists|i: int|
                    #[trigger] witness(x, i) && equal(x[i].0, y[j].0) && equal(x[i].1, y[j].1)
        },
        _ => a == b,
    }
}

/// Two entries with equal keys and equal values.
pub open spec fn entry_equal(p: (ValueView, ValueView), q: (ValueView, ValueView)) -> bool {
    equal(p.0, q.0) && equal(p.1, q.1)
}

/// Every entry of `x` has an equal entry in `y`.
pub open spec fn covers(x: Entries, y: Entries) -> bool {
    forall|i: int| #[trigger]
        position(x, i) ==> exists|j: int| #[trigger] witness(y, j) && entry_equal(x[i], y[j])
}

/// No two entries have equal keys.
pub open spec fn distinct_keys(e: Entries) -> bool {
    forall|i: int, j: int|
        #![trigger e[i], e[j]]
        0 <= i < e.len() && 0 <= j < e.len() && i != j ==> !equal(e[i].0, e[j].0)
}

/// The entry at position `i` has a key equal to `k`.
pub open spec fn key_at(e: Entries, k: ValueView, i: int) -> bool {
    0 <= i < e.len() && equal(k, e[i].0)
}

/// Some entry has a key equal to `k`.
pub open spec fn has_key(e: Entries, k: ValueView) -> bool {
    exists|i: int| key_at(e, k, i)
}

/// The position of the entry whose key is equal to `k`, where there is one.
pub open spec fn index_of(e: Entries, k: ValueView) -> int {
    choose|i: int| key_at(e, k, i)
}

/// The value stored under `k`, or `Null` where no entry has that key.
pub open spec fn value_of(e: Entries, k: ValueView) -> ValueView {
    if has_key(e, k) {
        e[index_of(e, k)].1
    } else {
        ValueView::Null
    }
}

/// The entries after `v` has been inserted under `k`.
///
/// Where an entry has a key equal to `k`, that entry keeps its place and its
/// own key and takes the new value. Otherwise `(k, v)` becomes the last entry.
pub open spec fn inserted(e: Entries, k: ValueView, v: ValueView) -> Entries {
    if has_key(e, k) {
        e.update(index_of(e, k), (e[index_of(e, k)].0, v))
    } else {
        e.push((k, v))
    }
}

/// The entries after the one at position `i` has been taken out: the last
/// entry moves into its place, and the sequence is one shorter.
pub open spec fn swap_removed(e: Entries, i: int) -> Entries
    recommends
        0 <= i < e.len(),
{
    e.update(i, e.last()).drop_last()
}

/// The entries after the key `k` has been removed.
pub open spec fn removed(e: Entries, k: ValueView) -> Entries {
    if has_key(e, k) {
        swap_removed(e, index_of(e, k))
    } else {
        e
    }
}

/// The entries after `k` has been given an entry if it had none: a new last
/// entry `(k, Null)`.
pub open spec fn ensured(e: Entries, k: ValueView) -> Entries {
    if has_key(e, k) {
        e
    } else {
        e.push((k, ValueView::Null))
    }
}

/// The entries of a map that started empty and took the pairs of `s`, one
/// `inserted` after the other, first to last.
pub open spec fn built(s: Entries) -> Entries
    decreases s.len(),
{
    if s.len() == 0 {
        Seq::empty()
    } else {
        inserted(built(s.drop_last()), s.last().0, s.last().1)
    }
}

/// Every value is equal to itself.
pub proof fn equal_reflexive(a: ValueView)
    ensures
        equal(a, a),
    decreases a,
{
    match a {
        ValueView::Array(x) => {
            assert forall|i: int| 0 <= i < x.len() implies equal(#[trigger] x[i], x[i]) by {
                equal_reflexive(x[i]);
            }
        },
        ValueView::Object(x) => {
            assert forall|i: int| #[trigger] position(x, i) implies exists|j: int| #[trigger]
                witness(x, j) && equal(x[i].0, x[j].0) && equal(x[i].1, x[j].1) by {
                equal_reflexive(x[i].0);
                equal_reflexive(x[i].1);
                assert(witness(x, i));
            }
            assert forall|j: int| #[trigger] position(x, j) implies exists|i: int| #[trigger]
                witness(x, i) && equal(x[i].0, x[j].0) && equal(x[i].1, x[j].1) by {
                equal_reflexive(x[j].0);
                equal_reflexive(x[j].1);
                assert(witness(x, j));
            }
        },
        _ => {},
    }
}

/// Equality does not depend on the side a value stands on.
pub proof fn equal_symmetric(a: ValueView, b: ValueView)
    requires
        equal(a, b),
    ensures
        equal(b, a),
    decreases a,
{
    match a {
        ValueView::Array(x) => {
            let y = b->Array_0;
            assert forall|i: int| 0 <= i < y.len() implies equal(#[trigger] y[i], x[i]) by {
                assert(equal(x[i], y[i]));
                equal_symmetric(x[i], y[i]);
            }
        },
        ValueView::Object(x) => {
            let y = b->Object_0;
            assert forall|j: int| #[trigger] position(y, j) implies exists|i: int|
                #[trigger] witness(x, i) && equal(y[j].0, x[i].0) && equal(y[j].1, x[i].1) by {
                let i = choose|i: int|
                    #[trigger] witness(x, i) && equal(x[i].0, y[j].0) && equal(x[i].1, y[j].1);
                equal_symmetric(x[i].0, y[j].0);
                equal_symmetric(x[i].1, y[j].1);
            }
            assert forall|i: int| #[trigger] position(x, i) implies exists|j: int|
                #[trigger] witness(y, j) && equal(y[j].0, x[i].0) && equal(y[j].1, x[i].1) by {
                let j = choose|j: int|
                    #[trigger] witness(y, j) && equal(x[i].0, y[j].0) && equal(x[i].1, y[j].1);
                equal_symmetric(x[i].0, y[j].0);
                equal_symmetric(x[i].1, y[j].1);
            }
        },
        _ => {},
    }
}

/// Two values equal to a third are equal to each other.
pub proof fn equal_transitive(a: ValueView, b: ValueView, c: ValueView)
    requires
        equal(a, b),
        equal(b, c),
    ensures
        equal(a, c),
    decreases a,
{
    match a {
        ValueView::Array(x) => {
            let y = b->Array_0;
            let z = c->Array_0;
            assert forall|i: int| 0 <= i < x.len() implies equal(#[trigger] x[i], z[i]) by {
                assert(equal(x[i], y[i]));
                assert(equal(y[i], z[i]));
                equal_transitive(x[i], y[i], z[i]);
            }
        },
        ValueView::Object(x) => {
            let y = b->Object_0;
            let z = c->Object_0;
            assert forall|i: int| #[trigger] position(x, i) implies exists|k: int|
                #[trigger] witness(z, k) && equal(x[i].0, z[k].0) && equal(x[i].1, z[k].1) by {
                let j = choose|j: int|
                    #[trigger] witness(y, j) && equal(x[i].0, y[j].0) && equal(x[i].1, y[j].1);
                assert(position(y, j));
                let k = choose|k: int|
                    #[trigger] witness(z, k) && equal(y[j].0, z[k].0) && equal(y[j].1, z[k].1);
                equal_transitive(x[i].0, y[j].0, z[k].0);
                equal_transitive(x[i].1, y[j].1, z[k].1);
            }
            assert forall|k: int| #[trigger] position(z, k) implies exists|i: int|
                #[trigger] witness(x, i) && equal(x[i].0, z[k].0) && equal(x[i].1, z[k].1) by {
                let j = choose|j: int|
                    #[trigger] witness(y, j) && equal(y[j].0, z[k].0) && equal(y[j].1, z[k].1);
                assert(position(y, j));
                let i = choose|i: int|
                    #[trigger] witness(x, i) && equal(x[i].0, y[j].0) && equal(x[i].1, y[j].1);
                equal_transitive(x[i].0, y[j].0, z[k].0);
                equal_transitive(x[i].1, y[j].1, z[k].1);
            }
        },
        _ => {},
    }
}

/// Among entries with distinct keys, at most one has a key equal to `k`.
pub proof fn key_unique(e: Entries, k: ValueView, i: int, j: int)
    requires
        distinct_keys(e),
        key_at(e, k, i),
        key_at(e, k, j),
    ensures
        i == j,
{
    equal_symmetric(k, e[i].0);
    equal_transitive(e[i].0, k, e[j].0);
}

/// Where `x` has distinct keys and as many entries as `y`, it is enough for
/// the two maps to be equal that every entry of `x` has an equal entry in `y`:
/// no entry of `y` is then left over.
pub proof fn covers_is_equal(x: Entries, y: Entries)
    requires
        distinct_keys(x),
        x.len() == y.len(),
        covers(x, y),
    ensures
        equal(ValueView::Object(x), ValueView::Object(y)),
{
    let n = x.len() as int;
    let f = |i: int| choose|j: int| #[trigger] witness(y, j) && entry_equal(x[i], y[j]);
    let dom = set_int_range(0, n);
    let img = dom.map(f);
    lemma_int_range(0, n);
    assert forall|i: int| dom.contains(i) implies witness(y, #[trigger] f(i)) && entry_equal(
        x[i],
        y[f(i)],
    ) by {
        assert(position(x, i));
    }
    assert forall|i1: int, i2: int|
        dom.contains(i1) && dom.contains(i2) && #[trigger] f(i1) == #[trigger] f(i2) implies i1
        == i2 by {
        equal_symmetric(x[i2].0, y[f(i2)].0);
        equal_transitive(x[i1].0, y[f(i1)].0, x[i2].0);
    }
    assert(injective_on(f, dom));
    lemma_map_size(dom, img, f);
    assert(img.subset_of(dom)) by {
        assert forall|j: int| img.contains(j) implies dom.contains(j) by {
            let i = choose|i: int| dom.contains(i) && j == f(i);
            assert(witness(y, f(i)));
        }
    }
    lemma_subset_equality(img, dom);
    assert forall|i: int| #[trigger] position(x, i) implies exists|j: int| #[trigger]
        witness(y, j) && equal(x[i].0, y[j].0) && equal(x[i].1, y[j].1) by {
        assert(dom.contains(i));
        assert(witness(y, f(i)));
    }
    assert forall|j: int| #[trigger] position(y, j) implies exists|i: int| #[trigger]
        witness(x, i) && equal(x[i].0, y[j].0) && equal(x[i].1, y[j].1) by {
        assert(dom.contains(j));
        assert(img.contains(j));
        let i = choose|i: int| dom.contains(i) && j == f(i);
        assert(witness(x, i));
    }
    objects_equal(x, y);
}

/// Two lists of entries that match each other entry for entry are the entries
/// of equal maps: `equal`, spelled out for two maps.
proof fn objects_equal(x: Entries, y: Entries)
    requires
        x.len() == y.len(),
        forall|i: int| #[trigger]
            position(x, i) ==> exists|j: int| #[trigger]
                witness(y, j) && equal(x[i].0, y[j].0) && equal(x[i].1, y[j].1),
        forall|j: int| #[trigger]
            position(y, j) ==> exists|i: int| #[trigger]
                witness(x, i) && equal(x[i].0, y[j].0) && equal(x[i].1, y[j].1),
    ensures
        equal(ValueView::Object(x), ValueView::Object(y)),
{
    assert(ValueView::Object(x)->Object_0 == x);
    assert(ValueView::Object(y)->Object_0 == y);
}

/// Of two equal maps, the first is as long as the second, and every entry of
/// the first has an equal entry in the second.
pub proof fn equal_covers(x: Entries, y: Entries)
    requires
        equal(ValueView::Object(x), ValueView::Object(y)),
    ensures
        x.len() == y.len(),
        covers(x, y),
{
    assert forall|i: int| #[trigger] position(x, i) implies exists|j: int| #[trigger]
        witness(y, j) && entry_equal(x[i], y[j]) by {
        let j = choose|j: int| #[trigger]
            witness(y, j) && equal(x[i].0, y[j].0) && equal(x[i].1, y[j].1);
        assert(witness(y, j) && entry_equal(x[i], y[j]));
    }
}

/// Among entries with distinct keys, the entry at `i` whose key is equal to
/// `k` is the one that `index_of` and `value_of` speak of.
pub proof fn key_found(e: Entries, k: ValueView, i: int)
    requires
        distinct_keys(e),
        key_at(e, k, i),
    ensures
        has_key(e, k),
        index_of(e, k) == i,
        value_of(e, k) == e[i].1,
{
    key_unique(e, k, i, index_of(e, k));
}

/// Among entries with distinct keys, whichever entry has a key equal to `k`
/// is the one that `index_of` and `value_of` speak of.
pub proof fn key_determined(e: Entries, k: ValueView)
    requires
        distinct_keys(e),
    ensures
        forall|i: int| #[trigger]
            key_at(e, k, i) ==> has_key(e, k) && index_of(e, k) == i && value_of(e, k) == e[i].1,
{
    assert forall|i: int| #[trigger] key_at(e, k, i) implies has_key(e, k) && index_of(e, k) == i
        && value_of(e, k) == e[i].1 by {
        key_found(e, k, i);
    }
}

/// Inserting keeps the keys distinct.
pub proof fn inserted_distinct(e: Entries, k: ValueView, v: ValueView)
    requires
        distinct_keys(e),
    ensures
        distinct_keys(inserted(e, k, v)),
{
    let f = inserted(e, k, v);
    if has_key(e, k) {
        assert forall|i: int, j: int|
            #![trigger f[i], f[j]]
            0 <= i < f.len() && 0 <= j < f.len() && i != j implies !equal(f[i].0, f[j].0) by {
            assert(f[i].0 == e[i].0 && f[j].0 == e[j].0);
        }
    } else {
        assert forall|i: int, j: int|
            #![trigger f[i], f[j]]
            0 <= i < f.len() && 0 <= j < f.len() && i != j implies !equal(f[i].0, f[j].0) by {
            if i == e.len() {
                assert(!key_at(e, k, j));
            } else if j == e.len() {
                assert(!key_at(e, k, i));
                if equal(e[i].0, k) {
                    equal_symmetric(e[i].0, k);
                }
            } else {
                assert(f[i].0 == e[i].0 && f[j].0 == e[j].0);
            }
        }
    }
}

/// Taking an entry out by swapping the last one into its place keeps the keys
/// distinct.
pub proof fn swap_removed_distinct(e: Entries, i: int)
    requires
        distinct_keys(e),
        0 <= i < e.len(),
    ensures
        distinct_keys(swap_removed(e, i)),
{
    let f = swap_removed(e, i);
    let last = e.len() - 1;
    assert forall|a: int, b: int|
        #![trigger f[a], f[b]]
        0 <= a < f.len() && 0 <= b < f.len() && a != b implies !equal(f[a].0, f[b].0) by {
        let a0 = if a == i { last } else { a };
        let b0 = if b == i { last } else { b };
        assert(f[a] == e[a0] && f[b] == e[b0]);
    }
}

/// Removing a key keeps the keys distinct.
pub proof fn removed_distinct(e: Entries, k: ValueView)
    requires
        distinct_keys(e),
    ensures
        distinct_keys(removed(e, k)),
{
    if has_key(e, k) {
        swap_removed_distinct(e, index_of(e, k));
    }
}

} // verus!
