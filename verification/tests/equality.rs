use rbs::{Value, ValueMap};

fn text(s: &str) -> Value {
    Value::String(s.to_string())
}

fn map_of(pairs: Vec<(Value, Value)>) -> ValueMap {
    let mut m = ValueMap::new();
    for (k, v) in pairs {
        m.insert(k, v);
    }
    m
}

#[test]
fn maps_built_in_different_orders_are_equal() {
    let a = map_of(vec![
        (text("a"), Value::I64(1)),
        (text("b"), Value::I64(2)),
        (text("c"), Value::I64(3)),
    ]);
    let b = map_of(vec![
        (text("c"), Value::I64(3)),
        (text("a"), Value::I64(1)),
        (text("b"), Value::I64(2)),
    ]);
    assert!(a == b);
    assert!(b == a);
    assert_ne!(a.entries(), b.entries());
}

#[test]
fn maps_with_a_different_value_differ() {
    let a = map_of(vec![(text("a"), Value::I64(1)), (text("b"), Value::I64(2))]);
    let b = map_of(vec![(text("a"), Value::I64(1)), (text("b"), Value::I64(3))]);
    assert!(a != b);
}

#[test]
fn maps_with_a_different_key_differ() {
    let a = map_of(vec![(text("a"), Value::I64(1)), (text("b"), Value::I64(2))]);
    let b = map_of(vec![(text("a"), Value::I64(1)), (text("c"), Value::I64(2))]);
    assert!(a != b);
}

#[test]
fn maps_of_different_length_differ() {
    let a = map_of(vec![(text("a"), Value::I64(1))]);
    let b = map_of(vec![(text("a"), Value::I64(1)), (text("b"), Value::I64(2))]);
    assert!(a != b);
    assert!(b != a);
    assert!(ValueMap::new() == ValueMap::new());
    assert!(ValueMap::new() != a);
}

#[test]
fn arrays_are_equal_in_order_only() {
    let a = Value::Array(vec![Value::I64(1), Value::I64(2)]);
    let b = Value::Array(vec![Value::I64(1), Value::I64(2)]);
    let c = Value::Array(vec![Value::I64(2), Value::I64(1)]);
    let d = Value::Array(vec![Value::I64(1)]);
    assert!(a == b);
    assert!(a != c);
    assert!(a != d);
    assert!(Value::Array(vec![]) == Value::Array(vec![]));
}

#[test]
fn values_of_different_variants_differ() {
    let all = vec![
        Value::Null,
        Value::Bool(false),
        Value::I64(0),
        Value::U64(0),
        Value::F64(0),
        text(""),
        Value::Binary(vec![]),
        Value::Array(vec![]),
        Value::Object(ValueMap::new()),
    ];
    for (i, a) in all.iter().enumerate() {
        for (j, b) in all.iter().enumerate() {
            assert_eq!(a == b, i == j);
        }
    }
}

#[test]
fn scalars_compare_by_what_they_hold() {
    assert!(Value::Bool(true) == Value::Bool(true));
    assert!(Value::Bool(true) != Value::Bool(false));
    assert!(Value::I64(-3) == Value::I64(-3));
    assert!(Value::I64(-3) != Value::I64(3));
    assert!(Value::U64(u64::MAX) == Value::U64(u64::MAX));
    assert!(Value::U64(1) != Value::U64(2));
    assert!(text("a") == text("a"));
    assert!(text("a") != text("b"));
    assert!(Value::Binary(vec![1, 2]) == Value::Binary(vec![1, 2]));
    assert!(Value::Binary(vec![1, 2]) != Value::Binary(vec![2, 1]));
}

#[test]
fn floats_compare_by_bit_pattern() {
    let nan = Value::F64(f64::NAN.to_bits());
    assert!(nan == Value::F64(f64::NAN.to_bits()));
    assert!(Value::F64(0.0f64.to_bits()) != Value::F64((-0.0f64).to_bits()));
    assert!(Value::F64(1.5f64.to_bits()) == Value::F64(1.5f64.to_bits()));
    let mut m = ValueMap::new();
    m.insert(nan.clone(), Value::I64(1));
    assert_eq!(m.insert(nan.clone(), Value::I64(2)), Some(Value::I64(1)));
    assert_eq!(m.len(), 1);
    assert_eq!(m.get(&nan), &Value::I64(2));
}

#[test]
fn a_map_is_found_under_a_key_that_lists_its_entries_in_another_order() {
    let k1 = Value::Object(map_of(vec![
        (text("x"), Value::I64(1)),
        (text("y"), Value::I64(2)),
        (text("z"), Value::I64(3)),
    ]));
    let k2 = Value::Object(map_of(vec![
        (text("z"), Value::I64(3)),
        (text("y"), Value::I64(2)),
        (text("x"), Value::I64(1)),
    ]));
    let other = Value::Object(map_of(vec![
        (text("x"), Value::I64(1)),
        (text("y"), Value::I64(2)),
        (text("z"), Value::I64(4)),
    ]));
    let mut m = ValueMap::new();
    m.insert(text("pad"), Value::Null);
    m.insert(k1.clone(), text("found"));
    m.insert(other.clone(), text("other"));
    assert_eq!(m.len(), 3);
    assert_eq!(m.get(&k2), &text("found"));
    assert_eq!(m.get(&other), &text("other"));
    assert_eq!(m.remove(&k2), text("found"));
    assert_eq!(m.get(&k1), &Value::Null);
    assert_eq!(m.len(), 2);
}

#[test]
fn arrays_of_maps_are_keys_too() {
    let inner_a = Value::Object(map_of(vec![(Value::I64(1), text("a")), (Value::I64(2), text("b"))]));
    let inner_b = Value::Object(map_of(vec![(Value::I64(2), text("b")), (Value::I64(1), text("a"))]));
    let k1 = Value::Array(vec![inner_a, Value::Null]);
    let k2 = Value::Array(vec![inner_b, Value::Null]);
    let mut m = ValueMap::new();
    m.insert(text("pad"), Value::Null);
    m.insert(k1, Value::I64(1));
    assert_eq!(m.get(&k2), &Value::I64(1));
}

#[test]
fn equality_is_an_equivalence_on_a_sample() {
    let sample = vec![
        Value::Null,
        Value::I64(1),
        Value::Array(vec![Value::I64(1), text("a")]),
        Value::Object(map_of(vec![(text("a"), Value::I64(1)), (text("b"), Value::I64(2))])),
        Value::Object(map_of(vec![(text("b"), Value::I64(2)), (text("a"), Value::I64(1))])),
        Value::Object(map_of(vec![(text("a"), Value::I64(2)), (text("b"), Value::I64(1))])),
    ];
    for a in &sample {
        assert!(a == a);
        for b in &sample {
            assert_eq!(a == b, b == a);
            for c in &sample {
                if a == b && b == c {
                    assert!(a == c);
                }
            }
        }
    }
}

#[test]
fn a_clone_is_equal_and_iterates_alike() {
    let mut m = map_of(vec![
        (text("a"), Value::Array(vec![Value::I64(1), Value::Binary(vec![9, 8])])),
        (Value::I64(2), Value::Object(map_of(vec![(text("n"), Value::Null)]))),
        (Value::F64(7), Value::Bool(true)),
    ]);
    let c = m.clone();
    assert!(c == m);
    assert_eq!(c.entries(), m.entries());
    let v = Value::Object(c);
    let w = v.clone();
    assert!(v == w);
    m.insert(text("later"), Value::Null);
    match &w {
        Value::Object(inner) => assert_eq!(inner.len(), 3),
        _ => panic!("a map was cloned"),
    }
}
