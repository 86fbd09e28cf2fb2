//! The text form of values and maps.
//!
//! A map reads `{k1:v1,k2:v2}`, its entries in iteration order; an array reads
//! `[v1,v2]`. The form is an aid for logs, not a format to parse back: strings
//! stand between double quotes as they are, without escapes.

use crate::model::{Entries, ValueView};
use crate::value::map::ValueMap;
use crate::value::{array_view, views, Value};
use vstd::prelude::*;
use vstd::string::StringExecFns;

verus! {

/// The text of one decimal digit.
pub open spec fn digit_text(d: nat) -> Seq<char> {
    if d == 0 {
        "0"@
    } else if d == 1 {
        "1"@
    } else if d == 2 {
        "2"@
    } else if d == 3 {
        "3"@
    } else if d == 4 {
        "4"@
    } else if d == 5 {
        "5"@
    } else if d == 6 {
        "6"@
    } else if d == 7 {
        "7"@
    } else if d == 8 {
        "8"@
    } else {
        "9"@
    }
}

/// A natural number in decimal, without leading zeros.
pub open spec fn decimal(n: nat) -> Seq<char>
    decreases n,
{
    if n < 10 {
        digit_text(n)
    } else {
        decimal(n / 10) + digit_text(n % 10)
    }
}

/// An integer in decimal, with a minus sign where it is negative.
pub open spec fn signed_decimal(n: int) -> Seq<char> {
    if n < 0 {
        "-"@ + decimal((-n) as nat)
    } else {
        decimal(n as nat)
    }
}

/// The first `n` bytes of `b` in decimal, separated by commas.
pub open spec fn bytes_text(b: Seq<u8>, n: nat) -> Seq<char>
    decreases n,
{
    if n == 0 {
        Seq::empty()
    } else if n == 1 {
        decimal(b[0] as nat)
    } else {
        bytes_text(b, (n - 1) as nat) + ","@ + decimal(b[n - 1] as nat)
    }
}

/// The text of a value.
///
/// A floating-point number reads as `float(` and `)` around its bit pattern in
/// decimal: the library holds the pattern and does not interpret it.
pub open spec fn text(v: ValueView) -> Seq<char>
    decreases v, 0nat,
{
    match v {
        ValueView::Null => "null"@,
        ValueView::Bool(b) => if b {
            "true"@
        } else {
            "false"@
        },
        ValueView::I64(n) => signed_decimal(n as int),
        ValueView::U64(n) => decimal(n as nat),
        ValueView::F64(bits) => "float("@ + decimal(bits as nat) + ")"@,
        ValueView::String(s) => "\""@ + s + "\""@,
        ValueView::Binary(b) => "["@ + bytes_text(b, b.len()) + "]"@,
        ValueView::Array(a) => "["@ + array_text(a, a.len()) + "]"@,
        ValueView::Object(e) => "{"@ + entries_text(e, e.len()) + "}"@,
    }
}

/// The texts of the first `n` elements of `a`, separated by commas.
pub open spec fn array_text(a: Seq<ValueView>, n: nat) -> Seq<char>
    decreases a, n,
{
    if n == 0 || n > a.len() {
        Seq::empty()
    } else if n == 1 {
        text(a[0])
    } else {
        array_text(a, (n - 1) as nat) + ","@ + text(a[n - 1])
    }
}

/// The texts of the first `n` entries of `e`, each as key, colon, value,
/// separated by commas.
pub open spec fn entries_text(e: Entries, n: nat) -> Seq<char>
    decreases e, n,
{
    if n == 0 || n > e.len() {
        Seq::empty()
    } else if n == 1 {
        text(e[0].0) + ":"@ + text(e[0].1)
    } else {
        entries_text(e, (n - 1) as nat) + ","@ + text(e[n - 1].0) + ":"@ + text(e[n - 1].1)
    }
}

/// The text of a map: its entries between braces.
pub open spec fn map_text(e: Entries) -> Seq<char> {
    "{"@ + entries_text(e, e.len()) + "}"@
}

/// The text of the digit `d`.
fn digit_str(d: u64) -> (s: &'static str)
    requires
        d < 10,
    ensures
        s@ == digit_text(d as nat),
{
    if d == 0 {
        "0"
    } else if d == 1 {
        "1"
    } else if d == 2 {
        "2"
    } else if d == 3 {
        "3"
    } else if d == 4 {
        "4"
    } else if d == 5 {
        "5"
    } else if d == 6 {
        "6"
    } else if d == 7 {
        "7"
    } else if d == 8 {
        "8"
    } else {
        "9"
    }
}

/// Appends `n` in decimal.
fn push_decimal(out: &mut String, n: u64)
    ensures
        final(out)@ == old(out)@ + decimal(n as nat),
    decreases n,
{
    if n >= 10 {
        push_decimal(out, n / 10);
    }
    out.append(digit_str(n % 10));
    proof {
        if n >= 10 {
            assert(final(out)@ =~= old(out)@ + (decimal((n / 10) as nat) + digit_text(
                (n % 10) as nat,
            )));
        }
    }
}

/// Appends `n` in decimal, with its sign where it is negative.
fn push_signed(out: &mut String, n: i64)
    ensures
        final(out)@ == old(out)@ + signed_decimal(n as int),
{
    if n < 0 {
        out.append("-");
        let magnitude: u64 = (-(n + 1)) as u64 + 1;
        push_decimal(out, magnitude);
        proof {
            assert(final(out)@ =~= old(out)@ + ("-"@ + decimal((-n) as nat)));
        }
    } else {
        push_decimal(out, n as u64);
    }
}

/// Appends the bytes of `b` in decimal, separated by commas.
fn push_bytes(out: &mut String, b: &Vec<u8>)
    ensures
        final(out)@ == old(out)@ + bytes_text(b@, b@.len()),
{
    let mut i: usize = 0;
    while i < b.len()
        invariant
            i <= b.len(),
            out@ == old(out)@ + bytes_text(b@, i as nat),
        decreases b.len() - i,
    {
        if i > 0 {
            out.append(",");
        }
        push_decimal(out, b[i] as u64);
        proof {
            if i > 0 {
                assert(out@ =~= old(out)@ + (bytes_text(b@, i as nat) + ","@ + decimal(
                    b@[i as int] as nat,
                )));
            } else {
                assert(out@ =~= old(out)@ + decimal(b@[0] as nat));
            }
        }
        i += 1;
    }
}

/// Appends the texts of the elements of `a`, separated by commas.
fn push_array(out: &mut String, a: &Vec<Value>)
    ensures
        final(out)@ == old(out)@ + array_text(views(a@), a@.len()),
    decreases ValueView::Array(views(a@)), 0nat,
{
    let mut i: usize = 0;
    while i < a.len()
        invariant
            i <= a.len(),
            out@ == old(out)@ + array_text(views(a@), i as nat),
        decreases a.len() - i,
    {
        if i > 0 {
            out.append(",");
        }
        proof {
            let whole = ValueView::Array(views(a@));
            assert(views(a@)[i as int] == a@[i as int]@);
            assert(decreases_to!(whole => whole->Array_0));
            assert(decreases_to!(whole->Array_0 => whole->Array_0[i as int]));
        }
        push_value(out, &a[i]);
        proof {
            if i > 0 {
                assert(out@ =~= old(out)@ + (array_text(views(a@), i as nat) + ","@ + text(
                    views(a@)[i as int],
                )));
            } else {
                assert(out@ =~= old(out)@ + text(views(a@)[0]));
            }
        }
        i += 1;
    }
}

/// Appends the texts of the entries of `m`, separated by commas.
fn push_entries(out: &mut String, m: &ValueMap)
    ensures
        final(out)@ == old(out)@ + entries_text(m@, m@.len()),
    decreases ValueView::Object(m@), 0nat,
{
    let n = m.len();
    let mut i: usize = 0;
    while i < n
        invariant
            n == m@.len(),
            i <= n,
            out@ == old(out)@ + entries_text(m@, i as nat),
        decreases n - i,
    {
        if i > 0 {
            out.append(",");
        }
        proof {
            let whole = ValueView::Object(m@);
            let entry = whole->Object_0[i as int];
            assert(decreases_to!(whole => whole->Object_0));
            assert(decreases_to!(whole->Object_0 => entry));
            assert(decreases_to!(entry => entry.0));
            assert(decreases_to!(entry => entry.1));
        }
        match m.entry_at(i) {
            Some((k, v)) => {
                push_value(out, k);
                out.append(":");
                push_value(out, v);
            },
            None => {},
        }
        proof {
            let e = m@[i as int];
            if i > 0 {
                assert(out@ =~= old(out)@ + (entries_text(m@, i as nat) + ","@ + text(e.0) + ":"@
                    + text(e.1)));
            } else {
                assert(out@ =~= old(out)@ + (text(e.0) + ":"@ + text(e.1)));
            }
        }
        i += 1;
    }
}

/// Appends the text of `v`.
fn push_value(out: &mut String, v: &Value)
    ensures
        final(out)@ == old(out)@ + text(v@),
    decreases v@, 1nat,
{
    match v {
        Value::Null => {
            out.append("null");
        },
        Value::Bool(b) => {
            if *b {
                out.append("true");
            } else {
                out.append("false");
            }
        },
        Value::I64(n) => {
            push_signed(out, *n);
        },
        Value::U64(n) => {
            push_decimal(out, *n);
        },
        Value::F64(bits) => {
            out.append("float(");
            push_decimal(out, *bits);
            out.append(")");
            assert(out@ =~= old(out)@ + ("float("@ + decimal(*bits as nat) + ")"@));
        },
        Value::String(s) => {
            out.append("\"");
            out.append(s.as_str());
            out.append("\"");
            assert(out@ =~= old(out)@ + ("\""@ + s@ + "\""@));
        },
        Value::Binary(b) => {
            out.append("[");
            push_bytes(out, b);
            out.append("]");
            assert(out@ =~= old(out)@ + ("["@ + bytes_text(b@, b@.len()) + "]"@));
        },
        Value::Array(a) => {
            proof {
                array_view(*a);
            }
            out.append("[");
            push_array(out, a);
            out.append("]");
            assert(out@ =~= old(out)@ + ("["@ + array_text(views(a@), a@.len()) + "]"@));
        },
        Value::Object(m) => {
            out.append("{");
            push_entries(out, m);
            out.append("}");
            assert(out@ =~= old(out)@ + ("{"@ + entries_text(m@, m@.len()) + "}"@));
        },
    }
}

impl Value {
    /// The text of the value.
    pub fn to_string(&self) -> (s: String)
        ensures
            s@ == text(self@),
    {
        let mut out = String::new();
        push_value(&mut out, self);
        assert(out@ =~= text(self@));
        out
    }
}

impl ValueMap {
    /// The text of the map: `{k1:v1,k2:v2}`, each key and value in its own text
    /// form, the entries in iteration order, no comma after the last.
    pub fn to_string(&self) -> (s: String)
        ensures
            s@ == map_text(self@),
    {
        let mut out = String::new();
        out.append("{");
        push_entries(&mut out, self);
        out.append("}");
        assert(out@ =~= map_text(self@));
        out
    }
}

} // verus!
