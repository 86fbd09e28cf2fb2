//! The map: unique keys, insertion-ordered iteration, lookup by key.

use crate::model::{
    built, covers_is_equal, distinct_keys, ensured, equal, equal_covers, equal_reflexive, has_key,
    index_of, inserted, inserted_distinct, key_at, key_determined, removed, removed_distinct,
    value_of, Entries, ValueView,
};
use crate::store::{
    contents, store_clone, store_contains_key, store_eq, store_get, store_get_index,
    store_get_index_mut, store_get_mut, store_insert, store_into_entries, store_is_empty,
    store_len, store_new, store_swap_remove, store_try_reserve, Store,
};
use crate::value::Value;
use vstd::prelude::*;
use vstd::std_specs::cmp::PartialEqSpecImpl;
use vstd::std_specs::vec::into_iter_elts;

verus! {

/// An insertion-ordered map from values to values.
///
/// Its view is the sequence of its entries in iteration order. No two entries
/// have equal keys.
#[derive(Debug, Hash)]
pub struct ValueMap {
    store: Store,
}

/// The views of a list of pairs of a key and a value.
pub open spec fn pair_views(s: Seq<(Value, Value)>) -> Entries {
    Seq::new(s.len(), |i: int| (s[i].0@, s[i].1@))
}

/// The views of a list of borrowed pairs of a key and a value.
pub open spec fn borrowed_pair_views(s: Seq<(&Value, &Value)>) -> Entries {
    Seq::new(s.len(), |i: int| (s[i].0@, s[i].1@))
}

impl View for ValueMap {
    type V = Entries;

    /// The entries, in iteration order.
    closed spec fn view(&self) -> Entries {
        contents(self.store)
    }
}

impl ValueMap {
    /// No two entries of a map have equal keys.
    #[verifier::type_invariant]
    spec fn well_formed(self) -> bool {
        distinct_keys(contents(self.store))
    }

    /// Does nothing when run. To a verified caller it shows what every map
    /// keeps: no two of its entries have equal keys.
    pub fn keys_are_distinct(&self)
        ensures
            distinct_keys(self@),
    {
        proof {
            use_type_invariant(self);
        }
    }

    /// An empty map.
    pub fn new() -> (m: Self)
        ensures
            m@ == Seq::<(ValueView, ValueView)>::empty(),
    {
        ValueMap { store: store_new() }
    }

    /// An empty map with room for `n` entries, as far as the room can be had:
    /// `n` is a hint, and any `n` gives an empty map.
    pub fn with_capacity(n: usize) -> (m: Self)
        ensures
            m@ == Seq::<(ValueView, ValueView)>::empty(),
    {
        let mut store = store_new();
        let _ = store_try_reserve(&mut store, n);
        ValueMap { store }
    }

    /// Puts `v` under `k`.
    ///
    /// Where the map has an entry with a key equal to `k`, that entry keeps its
    /// place and its key and takes the value `v`; the value that it held is
    /// returned. Otherwise `(k, v)` becomes the last entry, and `None` is
    /// returned.
    pub fn insert(&mut self, k: Value, v: Value) -> (r: Option<Value>)
        ensures
            final(self)@ == inserted(old(self)@, k@, v@),
            match r {
                Some(prev) => has_key(old(self)@, k@) && prev@ == value_of(old(self)@, k@),
                None => !has_key(old(self)@, k@),
            },
    {
        proof {
            use_type_invariant(&*self);
            key_determined(self@, k@);
            inserted_distinct(self@, k@, v@);
        }
        let mut store = store_new();
        std::mem::swap(&mut store, &mut self.store);
        let r = store_insert(&mut store, k, v);
        self.store = store;
        r
    }

    /// Takes the entry with a key equal to `k` out of the map and returns its
    /// value. The last entry moves into the place of the one that left. Where
    /// no entry has such a key, the map stays as it is and `Null` is returned.
    pub fn remove(&mut self, k: &Value) -> (r: Value)
        ensures
            final(self)@ == removed(old(self)@, k@),
            r@ == value_of(old(self)@, k@),
    {
        proof {
            use_type_invariant(&*self);
            key_determined(self@, k@);
            removed_distinct(self@, k@);
        }
        let mut store = store_new();
        std::mem::swap(&mut store, &mut self.store);
        let r = store_swap_remove(&mut store, k);
        self.store = store;
        match r {
            Some(v) => v,
            None => Value::default(),
        }
    }

    /// The same as [`remove`](Self::remove).
    pub fn rm(&mut self, k: &Value) -> (r: Value)
        ensures
            final(self)@ == removed(old(self)@, k@),
            r@ == value_of(old(self)@, k@),
    {
        self.remove(k)
    }

    /// The number of entries.
    pub fn len(&self) -> (n: usize)
        ensures
            n == self@.len(),
    {
        store_len(&self.store)
    }

    /// Whether the map has no entry.
    pub fn is_empty(&self) -> (b: bool)
        ensures
            b == (self@.len() == 0),
    {
        store_is_empty(&self.store)
    }

    /// The value under `k`, or `Null` where no entry has a key equal to `k`.
    ///
    /// A key that is absent and a key that holds `Null` give the same answer.
    pub fn get(&self, k: &Value) -> (r: &Value)
        ensures
            r@ == value_of(self@, k@),
    {
        proof {
            use_type_invariant(self);
            key_determined(self@, k@);
        }
        match store_get(&self.store, k) {
            Some(v) => v,
            None => &Value::Null,
        }
    }

    /// A mutable reference to the value under `k`, or `None` where no entry has
    /// a key equal to `k`. What is written through the reference becomes the
    /// value of that entry; nothing else in the map changes.
    pub fn get_mut(&mut self, k: &Value) -> (r: Option<&mut Value>)
        ensures
            match r {
                Some(v) => {
                    let i = index_of(old(self)@, k@);
                    &&& has_key(old(self)@, k@)
                    &&& (*v)@ == value_of(old(self)@, k@)
                    &&& final(self)@ == old(self)@.update(i, (old(self)@[i].0, (*final(v))@))
                },
                None => !has_key(old(self)@, k@) && final(self)@ == old(self)@,
            },
    {
        proof {
            use_type_invariant(&*self);
            key_determined(self@, k@);
        }
        store_get_mut(&mut self.store, k)
    }

    /// The entry at position `i` of the iteration order, or `None` where `i` is
    /// not below the length.
    pub fn entry_at(&self, i: usize) -> (r: Option<(&Value, &Value)>)
        ensures
            match r {
                Some((k, v)) => i < self@.len() && k@ == self@[i as int].0 && v@
                    == self@[i as int].1,
                None => i >= self@.len(),
            },
    {
        store_get_index(&self.store, i)
    }

    /// The key at position `i` of the iteration order and a mutable reference
    /// to its value, or `None` where `i` is not below the length. What is
    /// written through the reference becomes the value of that entry.
    pub fn entry_at_mut(&mut self, i: usize) -> (r: Option<(&Value, &mut Value)>)
        ensures
            match r {
                Some((k, v)) => {
                    &&& i < old(self)@.len()
                    &&& k@ == old(self)@[i as int].0
                    &&& (*v)@ == old(self)@[i as int].1
                    &&& final(self)@ == old(self)@.update(
                        i as int,
                        (old(self)@[i as int].0, (*final(v))@),
                    )
                },
                None => i >= old(self)@.len() && final(self)@ == old(self)@,
            },
    {
        proof {
            use_type_invariant(&*self);
        }
        store_get_index_mut(&mut self.store, i)
    }

    /// The map that a stream of pairs gives: it starts empty, with room for as
    /// many entries as `size_hint` says, and takes the pairs by
    /// [`insert`](Self::insert), first to last. Of two pairs with equal keys,
    /// the first fixes the place and the key, the second the value.
    ///
    /// The hint may be absent or wrong: it has no part in the result.
    pub fn from_entries(size_hint: Option<usize>, entries: Vec<(Value, Value)>) -> (m: Self)
        ensures
            m@ == built(pair_views(entries@)),
    {
        let mut m = ValueMap::with_capacity(
            match size_hint {
                Some(n) => n,
                None => 0,
            },
        );
        let ghost all = pair_views(entries@);
        assert(all.take(0) =~= Seq::empty());
        for pair in it: entries
            invariant
                all == pair_views(entries@),
                m@ == built(all.take(it.index() as int)),
        {
            let ghost i = it.index() as int;
            assert(all.take(i + 1).drop_last() =~= all.take(i));
            m.insert(pair.0, pair.1);
        }
        assert(all.take(all.len() as int) =~= all);
        m
    }

    /// The entries, borrowed, in iteration order.
    pub fn entries(&self) -> (out: Vec<(&Value, &Value)>)
        ensures
            borrowed_pair_views(out@) == self@,
    {
        let n = self.len();
        let mut out: Vec<(&Value, &Value)> = Vec::new();
        let mut i: usize = 0;
        while i < n
            invariant
                n == self@.len(),
                i <= n,
                out.len() == i,
                forall|j: int|
                    0 <= j < i ==> (#[trigger] out[j]).0@ == self@[j].0 && out[j].1@ == self@[j].1,
            decreases n - i,
        {
            match self.entry_at(i) {
                Some(entry) => {
                    out.push(entry);
                },
                None => {},
            }
            i += 1;
        }
        assert(borrowed_pair_views(out@) =~= self@);
        out
    }

    /// The entries, moved out of the map, in iteration order.
    pub fn into_entries(self) -> (out: Vec<(Value, Value)>)
        ensures
            pair_views(out@) == self@,
    {
        let out = store_into_entries(self.store);
        assert(pair_views(out@) =~= self@);
        out
    }

    /// A mutable reference to the value under `key`, after the key has been
    /// given an entry if it had none: a new last entry that holds `Null`. What
    /// is written through the reference becomes the value of the key's entry.
    ///
    /// This is what an indexed write does. It is the one way in which a map
    /// grows without a call of `insert`.
    pub fn get_or_insert_null(&mut self, key: Value) -> (r: &mut Value)
        ensures
            ({
                let e = ensured(old(self)@, key@);
                let i = index_of(e, key@);
                &&& has_key(e, key@)
                &&& (*r)@ == value_of(e, key@)
                &&& final(self)@ == e.update(i, (e[i].0, (*final(r))@))
            }),
    {
        proof {
            use_type_invariant(&*self);
        }
        let ghost e0 = self@;
        let ghost k = key@;
        if !store_contains_key(&self.store, &key) {
            proof {
                inserted_distinct(e0, k, ValueView::Null);
            }
            let mut store = store_new();
            std::mem::swap(&mut store, &mut self.store);
            store_insert(&mut store, key.clone(), Value::Null);
            self.store = store;
        }
        proof {
            let e = ensured(e0, k);
            assert(self@ == e);
            key_determined(e, k);
            if !has_key(e0, k) {
                equal_reflexive(k);
                assert(key_at(e, k, e0.len() as int));
            }
        }
        store_get_mut(&mut self.store, &key).unwrap()
    }
}

impl std::ops::Index<&str> for ValueMap {
    type Output = Value;

    /// The value under the string `index`, or `Null` where the map has no such
    /// key. Reading never changes the map.
    fn index(&self, index: &str) -> (r: &Value)
        ensures
            r@ == value_of(self@, ValueView::String(index@)),
    {
        self.get(&Value::String(index.to_owned()))
    }
}

impl std::ops::Index<i64> for ValueMap {
    type Output = Value;

    /// The value under the integer `index`, or `Null` where the map has no such
    /// key. Reading never changes the map.
    fn index(&self, index: i64) -> (r: &Value)
        ensures
            r@ == value_of(self@, ValueView::I64(index)),
    {
        self.get(&Value::I64(index))
    }
}

impl std::ops::IndexMut<&str> for ValueMap {
    /// The place of the value under the string `index`, which is given an entry
    /// that holds `Null` if the map had none.
    fn index_mut(&mut self, index: &str) -> (r: &mut Value)
        ensures
            ({
                let e = ensured(old(self)@, ValueView::String(index@));
                let i = index_of(e, ValueView::String(index@));
                &&& has_key(e, ValueView::String(index@))
                &&& (*r)@ == value_of(e, ValueView::String(index@))
                &&& final(self)@ == e.update(i, (e[i].0, (*final(r))@))
            }),
    {
        self.get_or_insert_null(Value::String(index.to_owned()))
    }
}

impl std::ops::IndexMut<i64> for ValueMap {
    /// The place of the value under the integer `index`, which is given an
    /// entry that holds `Null` if the map had none.
    fn index_mut(&mut self, index: i64) -> (r: &mut Value)
        ensures
            ({
                let e = ensured(old(self)@, ValueView::I64(index));
                let i = index_of(e, ValueView::I64(index));
                &&& has_key(e, ValueView::I64(index))
                &&& (*r)@ == value_of(e, ValueView::I64(index))
                &&& final(self)@ == e.update(i, (e[i].0, (*final(r))@))
            }),
    {
        self.get_or_insert_null(Value::I64(index))
    }
}

impl IntoIterator for ValueMap {
    type Item = (Value, Value);

    type IntoIter = std::vec::IntoIter<(Value, Value)>;

    /// Hands the entries out, in iteration order.
    fn into_iter(self) -> (it: std::vec::IntoIter<(Value, Value)>)
        ensures
            pair_views(into_iter_elts(it)) == self@,
    {
        self.into_entries().into_iter()
    }
}

impl<'a> IntoIterator for &'a ValueMap {
    type Item = (&'a Value, &'a Value);

    type IntoIter = std::vec::IntoIter<(&'a Value, &'a Value)>;

    /// Lends the entries out, in iteration order.
    fn into_iter(self) -> (it: std::vec::IntoIter<(&'a Value, &'a Value)>)
        ensures
            borrowed_pair_views(into_iter_elts(it)) == self@,
    {
        self.entries().into_iter()
    }
}

impl Clone for ValueMap {
    /// A map with clones of the entries, in the same order.
    fn clone(&self) -> (r: Self)
        ensures
            r@ == self@,
    {
        proof {
            use_type_invariant(self);
        }
        ValueMap { store: store_clone(&self.store) }
    }
}

impl PartialEq for ValueMap {
    fn eq(&self, other: &Self) -> (r: bool) {
        proof {
            use_type_invariant(self);
            use_type_invariant(other);
        }
        let r = store_eq(&self.store, &other.store);
        proof {
            if r {
                covers_is_equal(self@, other@);
            } else if equal(ValueView::Object(self@), ValueView::Object(other@)) {
                equal_covers(self@, other@);
            }
        }
        r
    }
}

impl PartialEqSpecImpl for ValueMap {
    open spec fn obeys_eq_spec() -> bool {
        true
    }

    open spec fn eq_spec(&self, other: &Self) -> bool {
        equal(ValueView::Object(self@), ValueView::Object(other@))
    }
}

impl Eq for ValueMap {

}

} // verus!
