use rbs::{Value, ValueMap};

fn text(s: &str) -> Value {
    Value::String(s.to_string())
}

#[test]
fn reading_by_string_finds_the_value() {
    let mut m = ValueMap::new();
    m.insert(text("a"), Value::I64(1));
    assert_eq!(m["a"], Value::I64(1));
}

#[test]
fn reading_by_integer_finds_the_value() {
    let mut m = ValueMap::new();
    m.insert(Value::I64(7), text("seven"));
    assert_eq!(m[7i64], text("seven"));
}

#[test]
fn reading_an_absent_key_is_null_and_adds_nothing() {
    let mut m = ValueMap::new();
    m.insert(text("a"), Value::I64(1));
    assert_eq!(m["b"], Value::Null);
    assert_eq!(m[3i64], Value::Null);
    assert_eq!(m.len(), 1);
}

#[test]
fn a_string_key_and_an_integer_key_do_not_meet() {
    let mut m = ValueMap::new();
    m.insert(text("1"), text("text"));
    m.insert(Value::I64(1), text("number"));
    assert_eq!(m["1"], text("text"));
    assert_eq!(m[1i64], text("number"));
    m.insert(Value::U64(2), text("unsigned"));
    assert_eq!(m[2i64], Value::Null);
}

#[test]
fn writing_by_string_creates_the_key() {
    let mut m = ValueMap::new();
    m["a"] = Value::I64(1);
    assert_eq!(m.len(), 1);
    assert_eq!(m.get(&text("a")), &Value::I64(1));
    assert_eq!(m.entry_at(0), Some((&text("a"), &Value::I64(1))));
}

#[test]
fn writing_by_integer_creates_the_key() {
    let mut m = ValueMap::new();
    m[5i64] = text("five");
    assert_eq!(m.len(), 1);
    assert_eq!(m.get(&Value::I64(5)), &text("five"));
}

#[test]
fn a_write_handle_that_is_not_written_leaves_null() {
    let mut m = ValueMap::new();
    m.insert(text("first"), Value::I64(1));
    {
        let slot = &mut m["absent"];
        assert_eq!(*slot, Value::Null);
    }
    assert_eq!(m.len(), 2);
    assert_eq!(m.get(&text("absent")), &Value::Null);
    assert_eq!(m.entry_at(1), Some((&text("absent"), &Value::Null)));
    {
        let slot = &mut m[9i64];
        assert_eq!(*slot, Value::Null);
    }
    assert_eq!(m.len(), 3);
    assert_eq!(m.entry_at(2), Some((&Value::I64(9), &Value::Null)));
}

#[test]
fn writing_to_a_known_key_keeps_its_place() {
    let mut m = ValueMap::new();
    m.insert(text("a"), Value::I64(1));
    m.insert(text("b"), Value::I64(2));
    m["a"] = Value::I64(10);
    assert_eq!(m.len(), 2);
    assert_eq!(
        m.entries(),
        vec![(&text("a"), &Value::I64(10)), (&text("b"), &Value::I64(2))]
    );
}

#[test]
fn nested_writes_go_through() {
    let mut m = ValueMap::new();
    m["outer"] = Value::Object(ValueMap::new());
    match &mut m["outer"] {
        Value::Object(inner) => {
            inner["inner"] = Value::I64(1);
        }
        _ => panic!("a map was put there"),
    }
    match &m["outer"] {
        Value::Object(inner) => assert_eq!(inner["inner"], Value::I64(1)),
        _ => panic!("a map was put there"),
    }
}

#[test]
fn get_or_insert_null_creates_once() {
    let mut m = ValueMap::new();
    let key = Value::Array(vec![Value::I64(1), text("x")]);
    assert_eq!(*m.get_or_insert_null(key.clone()), Value::Null);
    assert_eq!(m.len(), 1);
    *m.get_or_insert_null(key.clone()) = Value::Bool(true);
    assert_eq!(m.len(), 1);
    assert_eq!(*m.get_or_insert_null(key.clone()), Value::Bool(true));
    assert_eq!(m.get(&key), &Value::Bool(true));
}
