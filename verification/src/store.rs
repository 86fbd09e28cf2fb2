//! The hash-indexed, insertion-ordered collection that holds a map's entries.
//!
//! Everything in this file is believed, not proved. Verus cannot look inside
//! an [`IndexMap`], so its contents are given a name, [`contents`], and each
//! function below says how one method of `IndexMap` reads or changes them. The
//! rest of the crate is verified against these statements alone.
//!
//! `IndexMap` finds a key by hashing it and comparing it with `==`, the key
//! that is looked for on the left. For `Value` keys, `==` is the verified
//! `PartialEq` impl, which computes [`equal`](crate::model::equal), and `Hash`
//! gives equal values equal hashes: it hashes the variant and the payload,
//! arrays element by element, and of a map only its length.

use crate::model::{
    covers, distinct_keys, has_key, key_at, swap_removed, Entries, ValueView,
};
use crate::value::Value;
use indexmap::IndexMap;
use vstd::prelude::*;

verus! {

/// An [`IndexMap`] from values to values.
#[verifier::external_body]
#[derive(Debug)]
pub struct Store {
    inner: IndexMap<Value, Value>,
}

/// The entries that a store holds, in iteration order.
pub uninterp spec fn contents(s: Store) -> Entries;

/// `IndexMap::new`: a map without entries.
#[verifier::external_body]
pub(crate) fn store_new() -> (s: Store)
    ensures
        contents(s) == Seq::<(ValueView, ValueView)>::empty(),
{
    Store { inner: IndexMap::new() }
}

/// `IndexMap::try_reserve`: asks for room for `additional` more entries and
/// reports whether it was had. The entries stay as they are either way.
#[verifier::external_body]
pub(crate) fn store_try_reserve(s: &mut Store, additional: usize) -> (ok: bool)
    ensures
        contents(*final(s)) == contents(*old(s)),
{
    s.inner.try_reserve(additional).is_ok()
}

/// `IndexMap::len`: the number of entries.
#[verifier::external_body]
pub(crate) fn store_len(s: &Store) -> (n: usize)
    ensures
        n == contents(*s).len(),
{
    s.inner.len()
}

/// `IndexMap::is_empty`: whether there is no entry.
#[verifier::external_body]
pub(crate) fn store_is_empty(s: &Store) -> (b: bool)
    ensures
        b == (contents(*s).len() == 0),
{
    s.inner.is_empty()
}

/// `IndexMap::insert`: where an entry has a key equal to `k`, that entry keeps
/// its place and its key, takes the value `v`, and its former value is
/// returned. Otherwise `(k, v)` is appended and `None` is returned.
#[verifier::external_body]
pub(crate) fn store_insert(s: &mut Store, k: Value, v: Value) -> (r: Option<Value>)
    ensures
        ({
            let e = contents(*old(s));
            match r {
                Some(prev) => exists|i: int| #[trigger]
                    key_at(e, k@, i) && prev@ == e[i].1 && contents(*final(s)) == e.update(
                        i,
                        (e[i].0, v@),
                    ),
                None => !has_key(e, k@) && contents(*final(s)) == e.push((k@, v@)),
            }
        }),
{
    s.inner.insert(k, v)
}

/// `IndexMap::swap_remove`: where an entry has a key equal to `k`, it is taken
/// out, the last entry moves into its place, and its value is returned.
/// Otherwise nothing changes and `None` is returned.
#[verifier::external_body]
pub(crate) fn store_swap_remove(s: &mut Store, k: &Value) -> (r: Option<Value>)
    ensures
        ({
            let e = contents(*old(s));
            match r {
                Some(v) => exists|i: int| #[trigger]
                    key_at(e, k@, i) && v@ == e[i].1 && contents(*final(s)) == swap_removed(e, i),
                None => !has_key(e, k@) && contents(*final(s)) == e,
            }
        }),
{
    s.inner.swap_remove(k)
}

/// `IndexMap::contains_key`: whether an entry has a key equal to `k`.
#[verifier::external_body]
pub(crate) fn store_contains_key(s: &Store, k: &Value) -> (b: bool)
    ensures
        b == has_key(contents(*s), k@),
{
    s.inner.contains_key(k)
}

/// `IndexMap::get`: the value of an entry whose key is equal to `k`, or `None`
/// where there is no such entry.
#[verifier::external_body]
pub(crate) fn store_get<'a>(s: &'a Store, k: &Value) -> (r: Option<&'a Value>)
    ensures
        match r {
            Some(v) => exists|i: int| #[trigger]
                key_at(contents(*s), k@, i) && v@ == contents(*s)[i].1,
            None => !has_key(contents(*s), k@),
        },
{
    s.inner.get(k)
}

/// `IndexMap::get_mut`: a mutable reference to the value of an entry whose key
/// is equal to `k`, or `None` where there is no such entry. What is written
/// through the reference becomes that entry's value; keys, places and the
/// other values stay. The method neither allocates nor panics.
#[verifier::external_body]
pub(crate) fn store_get_mut<'a>(s: &'a mut Store, k: &Value) -> (r: Option<&'a mut Value>)
    ensures
        contents(*final(s)).len() == contents(*old(s)).len(),
        forall|j: int|
            0 <= j < contents(*old(s)).len() ==> (#[trigger] contents(*final(s))[j]).0 == contents(
                *old(s),
            )[j].0,
        match r {
            Some(v) => exists|i: int| #[trigger]
                key_at(contents(*old(s)), k@, i) && (*v)@ == contents(*old(s))[i].1 && contents(
                    *final(s),
                ) == contents(*old(s)).update(i, (contents(*old(s))[i].0, (*final(v))@)),
            None => !has_key(contents(*old(s)), k@) && contents(*final(s)) == contents(*old(s)),
        },
    no_unwind
{
    s.inner.get_mut(k)
}

/// `IndexMap::get_index`: the entry at position `i`, or `None` where `i` is
/// not below the length.
#[verifier::external_body]
pub(crate) fn store_get_index<'a>(s: &'a Store, i: usize) -> (r: Option<(&'a Value, &'a Value)>)
    ensures
        match r {
            Some((k, v)) => i < contents(*s).len() && k@ == contents(*s)[i as int].0 && v@
                == contents(*s)[i as int].1,
            None => i >= contents(*s).len(),
        },
{
    s.inner.get_index(i)
}

/// `IndexMap::get_index_mut`: the key at position `i` and a mutable reference
/// to the value there, or `None` where `i` is not below the length. What is
/// written through the reference becomes that entry's value; keys, places and
/// the other values stay. The method neither allocates nor panics.
#[verifier::external_body]
pub(crate) fn store_get_index_mut<'a>(s: &'a mut Store, i: usize) -> (r: Option<
    (&'a Value, &'a mut Value),
>)
    ensures
        contents(*final(s)).len() == contents(*old(s)).len(),
        forall|j: int|
            0 <= j < contents(*old(s)).len() ==> (#[trigger] contents(*final(s))[j]).0 == contents(
                *old(s),
            )[j].0,
        match r {
            Some((k, v)) => i < contents(*old(s)).len() && k@ == contents(*old(s))[i as int].0
                && (*v)@ == contents(*old(s))[i as int].1 && contents(*final(s)) == contents(
                *old(s),
            ).update(i as int, (contents(*old(s))[i as int].0, (*final(v))@)),
            None => i >= contents(*old(s)).len() && contents(*final(s)) == contents(*old(s)),
        },
    no_unwind
{
    s.inner.get_index_mut(i)
}

/// `IndexMap::into_iter`: the entries, moved out in iteration order.
#[verifier::external_body]
pub(crate) fn store_into_entries(s: Store) -> (out: Vec<(Value, Value)>)
    ensures
        out.len() == contents(s).len(),
        forall|i: int|
            0 <= i < out.len() ==> (#[trigger] out[i]).0@ == contents(s)[i].0 && out[i].1@
                == contents(s)[i].1,
{
    s.inner.into_iter().collect()
}

/// `IndexMap::clone`: a map with clones of the entries, in the same order. A
/// clone of a `Value` has the view of the value it was made from.
#[verifier::external_body]
pub(crate) fn store_clone(s: &Store) -> (r: Store)
    ensures
        contents(r) == contents(*s),
{
    Store { inner: s.inner.clone() }
}

/// `IndexMap::eq`: true when the lengths agree and, for every entry of `a`,
/// looking its key up in `b` finds an entry with an equal value. Where no two
/// keys of `b` are equal, the lookup can find one entry only, so this is
/// `covers`.
#[verifier::external_body]
pub(crate) fn store_eq(a: &Store, b: &Store) -> (r: bool)
    ensures
        distinct_keys(contents(*b)) ==> r == (contents(*a).len() == contents(*b).len() && covers(
            contents(*a),
            contents(*b),
        )),
{
    a.inner == b.inner
}

impl std::hash::Hash for Store {
    /// Feeds the number of entries, which equal maps share whatever their
    /// order, through `Hasher::write_usize`.
    #[verifier::external_body]
    fn hash<H: std::hash::Hasher>(&self, state: &mut H) {
        state.write_usize(self.inner.len());
    }
}

} // verus!
