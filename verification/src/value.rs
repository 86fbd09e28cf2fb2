//! The value type: a tree of scalars, strings, byte strings, arrays and maps.

pub mod map;

use crate::model::{equal, ValueView};
use crate::value::map::ValueMap;
use vstd::prelude::*;
use vstd::std_specs::cmp::PartialEqSpecImpl;

verus! {

/// A dynamically typed value.
///
/// `F64` holds a floating-point number as its IEEE 754 binary64 bit pattern.
/// The library never computes with it: two such values are equal when their
/// bit patterns are, which makes equality an equivalence on every value, as a
/// map key needs it.
#[derive(Debug, Hash)]
pub enum Value {
    Null,
    Bool(bool),
    I64(i64),
    U64(u64),
    F64(u64),
    String(String),
    Binary(Vec<u8>),
    Array(Vec<Value>),
    Object(ValueMap),
}

/// What a value holds.
pub open spec fn view_of(v: Value) -> ValueView
    decreases v,
{
    match v {
        Value::Null => ValueView::Null,
        Value::Bool(b) => ValueView::Bool(b),
        Value::I64(n) => ValueView::I64(n),
        Value::U64(n) => ValueView::U64(n),
        Value::F64(bits) => ValueView::F64(bits),
        Value::String(s) => ValueView::String(s@),
        Value::Binary(b) => ValueView::Binary(b@),
        Value::Array(a) => ValueView::Array(
            Seq::new(
                a@.len(),
                |i: int|
                    if 0 <= i < a@.len() {
                        view_of(a@[i])
                    } else {
                        ValueView::Null
                    },
            ),
        ),
        Value::Object(m) => ValueView::Object(m@),
    }
}

impl View for Value {
    type V = ValueView;

    open spec fn view(&self) -> ValueView {
        view_of(*self)
    }
}

/// The views of the elements of an array.
pub open spec fn views(a: Seq<Value>) -> Seq<ValueView> {
    Seq::new(a.len(), |i: int| a[i]@)
}

/// The view of an array is the sequence of its elements' views.
pub proof fn array_view(a: Vec<Value>)
    ensures
        Value::Array(a)@ == ValueView::Array(views(a@)),
{
    assert(Value::Array(a)@->Array_0 =~= views(a@));
}

impl Default for Value {
    /// The empty value.
    fn default() -> (r: Value)
        ensures
            r == Value::Null,
    {
        Value::Null
    }
}

/// Clones of the elements of an array, in order.
fn array_clone(a: &Vec<Value>) -> (r: Vec<Value>)
    ensures
        views(r@) == views(a@),
    decreases a,
{
    let mut out: Vec<Value> = Vec::new();
    let mut i: usize = 0;
    while i < a.len()
        invariant
            i <= a.len(),
            out.len() == i,
            forall|j: int| 0 <= j < i ==> (#[trigger] out[j])@ == a[j]@,
        decreases a.len() - i,
    {
        out.push(value_clone(&a[i]));
        i += 1;
    }
    assert(views(out@) =~= views(a@));
    out
}

/// A value with the same view.
fn value_clone(x: &Value) -> (r: Value)
    ensures
        r@ == x@,
    decreases x,
{
    match x {
        Value::Null => Value::Null,
        Value::Bool(b) => Value::Bool(*b),
        Value::I64(n) => Value::I64(*n),
        Value::U64(n) => Value::U64(*n),
        Value::F64(bits) => Value::F64(*bits),
        Value::String(s) => Value::String(s.clone()),
        Value::Binary(b) => {
            let c = b.clone();
            assert(c@ =~= b@);
            Value::Binary(c)
        },
        Value::Array(a) => {
            let c = array_clone(a);
            proof {
                array_view(*a);
                array_view(c);
            }
            Value::Array(c)
        },
        Value::Object(m) => Value::Object(m.clone()),
    }
}

impl Clone for Value {
    /// A value with the same view. Nested maps are copied, entry by entry, in
    /// iteration order.
    fn clone(&self) -> (r: Self)
        ensures
            r@ == self@,
    {
        value_clone(self)
    }
}

/// Whether two arrays hold equal values, element by element.
fn arrays_equal(a: &Vec<Value>, b: &Vec<Value>) -> (r: bool)
    ensures
        r == equal(ValueView::Array(views(a@)), ValueView::Array(views(b@))),
    decreases a,
{
    if a.len() != b.len() {
        return false;
    }
    let mut i: usize = 0;
    while i < a.len()
        invariant
            i <= a.len(),
            a.len() == b.len(),
            forall|j: int| 0 <= j < i ==> equal(#[trigger] views(a@)[j], views(b@)[j]),
        decreases a.len() - i,
    {
        if !values_equal(&a[i], &b[i]) {
            assert(!equal(views(a@)[i as int], views(b@)[i as int]));
            return false;
        }
        i += 1;
    }
    true
}

/// Whether two values are equal.
fn values_equal(x: &Value, y: &Value) -> (r: bool)
    ensures
        r == equal(x@, y@),
    decreases x,
{
    match x {
        Value::Null => match y {
            Value::Null => true,
            _ => false,
        },
        Value::Bool(a) => match y {
            Value::Bool(b) => *a == *b,
            _ => false,
        },
        Value::I64(a) => match y {
            Value::I64(b) => *a == *b,
            _ => false,
        },
        Value::U64(a) => match y {
            Value::U64(b) => *a == *b,
            _ => false,
        },
        Value::F64(a) => match y {
            Value::F64(b) => *a == *b,
            _ => false,
        },
        Value::String(a) => match y {
            Value::String(b) => *a == *b,
            _ => false,
        },
        Value::Binary(a) => match y {
            Value::Binary(b) => {
                let r = *a == *b;
                assert(r == (a@ =~= b@));
                r
            },
            _ => false,
        },
        Value::Array(a) => match y {
            Value::Array(b) => {
                proof {
                    array_view(*a);
                    array_view(*b);
                }
                arrays_equal(a, b)
            },
            _ => false,
        },
        Value::Object(a) => match y {
            Value::Object(b) => *a == *b,
            _ => false,
        },
    }
}

impl PartialEq for Value {
    fn eq(&self, other: &Self) -> (r: bool) {
        values_equal(self, other)
    }
}

impl PartialEqSpecImpl for Value {
    open spec fn obeys_eq_spec() -> bool {
        true
    }

    open spec fn eq_spec(&self, other: &Self) -> bool {
        equal(self@, other@)
    }
}

impl Eq for Value {

}

} // verus!
