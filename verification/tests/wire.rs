use rbs::{Value, ValueMap};

fn text(s: &str) -> Value {
    Value::String(s.to_string())
}

fn owned(pairs: Vec<(&Value, &Value)>) -> Vec<(Value, Value)> {
    let mut out = Vec::new();
    for (k, v) in pairs {
        out.push((k.clone(), v.clone()));
    }
    out
}

#[test]
fn duplicate_key_on_the_wire_keeps_the_later_value() {
    let wire = vec![(text("x"), Value::I64(1)), (text("x"), Value::I64(2))];
    let m = ValueMap::from_entries(Some(2), wire);
    assert_eq!(m.len(), 1);
    assert_eq!(m.get(&text("x")), &Value::I64(2));
    assert_eq!(m.entries(), vec![(&text("x"), &Value::I64(2))]);
}

#[test]
fn a_duplicate_key_keeps_its_first_place() {
    let wire = vec![
        (text("a"), Value::I64(1)),
        (text("b"), Value::I64(2)),
        (text("a"), Value::I64(3)),
        (text("c"), Value::I64(4)),
    ];
    let m = ValueMap::from_entries(None, wire);
    assert_eq!(
        m.entries(),
        vec![
            (&text("a"), &Value::I64(3)),
            (&text("b"), &Value::I64(2)),
            (&text("c"), &Value::I64(4)),
        ]
    );
}

#[test]
fn decoding_keeps_the_wire_order() {
    let wire = vec![
        (Value::I64(3), text("three")),
        (Value::I64(1), text("one")),
        (Value::I64(2), text("two")),
    ];
    let m = ValueMap::from_entries(Some(3), wire.clone());
    assert_eq!(m.into_entries(), wire);
}

#[test]
fn decoding_an_empty_stream_gives_an_empty_map() {
    assert!(ValueMap::from_entries(None, vec![]).is_empty());
    assert!(ValueMap::from_entries(Some(0), vec![]).is_empty());
    assert!(ValueMap::from_entries(Some(100), vec![]).is_empty());
}

#[test]
fn the_size_hint_has_no_part_in_the_result() {
    let wire = vec![
        (text("a"), Value::I64(1)),
        (text("b"), Value::Array(vec![Value::Null])),
        (text("c"), Value::Bool(false)),
    ];
    let exact = ValueMap::from_entries(Some(3), wire.clone());
    let none = ValueMap::from_entries(None, wire.clone());
    let low = ValueMap::from_entries(Some(0), wire.clone());
    let high = ValueMap::from_entries(Some(usize::MAX), wire.clone());
    assert_eq!(exact.entries(), none.entries());
    assert_eq!(exact.entries(), low.entries());
    assert_eq!(exact.entries(), high.entries());
    assert_eq!(exact.len(), 3);
}

#[test]
fn encoding_lists_every_entry_once_in_order() {
    let mut m = ValueMap::new();
    m.insert(text("a"), Value::I64(1));
    m.insert(text("b"), Value::I64(2));
    m.insert(text("a"), Value::I64(3));
    let out = m.entries();
    assert_eq!(out.len(), m.len());
    assert_eq!(out, vec![(&text("a"), &Value::I64(3)), (&text("b"), &Value::I64(2))]);
}

#[test]
fn a_map_comes_back_from_the_wire_as_it_went() {
    let mut inner = ValueMap::new();
    inner.insert(text("n"), Value::Null);
    inner.insert(Value::I64(2), Value::F64(2.5f64.to_bits()));
    let mut m = ValueMap::new();
    m.insert(text("z"), Value::Object(inner));
    m.insert(text("a"), Value::Binary(vec![1, 2, 3]));
    m.insert(Value::Bool(true), Value::Array(vec![text("x"), Value::U64(9)]));
    m.remove(&text("z"));
    m.insert(text("z"), Value::I64(0));
    let back = ValueMap::from_entries(Some(m.len()), owned(m.entries()));
    assert!(back == m);
    assert_eq!(back.entries(), m.entries());
    assert_eq!(back.to_string(), m.to_string());
}
