use rocket_config::{Index, Number, Object, Value};

fn names() -> Object {
    let mut map = Object::new();
    map.insert("name".to_owned(), Value::String("Doe".to_owned()));
    map.insert("firstname".to_owned(), Value::String("John".to_owned()));
    map
}

#[test]
fn null_value() {
    let value = Value::Null;

    assert_eq!(value, Value::Null);
    assert!(value.is_null());
    assert!(value.as_null().is_some());
    assert_eq!(value.as_null().unwrap(), ());
}

#[test]
fn bool_value() {
    let value = Value::Bool(true);

    assert_eq!(value, Value::Bool(true));
    assert!(value.is_boolean());
    assert!(value.as_bool().is_some());
    assert_eq!(value.as_bool().unwrap(), true);
}

#[test]
fn string_value() {
    let value = Value::String("test string".to_owned());

    assert_eq!(value, Value::String("test string".to_owned()));
    assert!(value.is_string());
    assert!(value.as_str().is_some());
    assert_eq!(value.as_str().unwrap(), "test string".to_owned());
}

#[test]
fn number_value() {
    let value_unsigned = Value::Number(Number::from(10u8));
    let value_signed = Value::Number(Number::from(10i8));
    let value_float = Value::Number(
        Number::from_float_text(format!("{:e}", 10.12f64)).expect("failed to create number from float"),
    );

    assert_eq!(value_unsigned, Value::Number(Number::from(10u8)));
    assert_eq!(value_signed, Value::Number(Number::from(10i8)));

    assert!(value_unsigned.is_number());
    assert!(value_unsigned.is_u64());
    assert!(value_signed.is_number());
    assert!(value_unsigned.is_i64());
    assert!(value_float.is_number());
    assert!(value_float.is_f64());

    assert!(value_unsigned.as_u64().is_some());
    assert_eq!(value_unsigned.as_u64().unwrap(), 10u64);

    assert!(value_unsigned.as_i64().is_some());
    assert_eq!(value_unsigned.as_i64().unwrap(), 10i64);

    assert!(value_float.as_float_text().is_some());
    assert_eq!(value_float.as_float_text().unwrap().parse::<f64>().unwrap(), 10.12);
}

#[test]
fn array_value() {
    let value = Value::Array(vec![
        Value::String("test".to_owned()),
        Value::String("test 2".to_owned()),
    ]);

    assert_eq!(value, Value::Array(vec![
        Value::String("test".to_owned()),
        Value::String("test 2".to_owned()),
    ]));
    assert!(value.is_array());
    assert!(value.as_array().is_some());
    assert_eq!(value.as_array().unwrap(), &vec![
        Value::String("test".to_owned()),
        Value::String("test 2".to_owned()),
    ]);
}

#[test]
fn object_value() {
    let value = Value::Object(names());

    assert_eq!(value, Value::Object(names()));
    assert!(value.is_object());
    assert!(value.as_object().is_some());
    assert_eq!(value.as_object().unwrap(), &names());

    let mut cloned_value = value.clone();
    assert!(cloned_value.as_object_mut().is_some());
    assert_eq!(cloned_value.as_object_mut().unwrap(), &mut names());
}

#[test]
fn default_value_is_null() {
    assert_eq!(Value::default(), Value::Null);
    assert!(Value::default().is_null());
}

#[test]
fn accessors_refuse_other_kinds() {
    let s = Value::String("x".to_owned());
    assert!(s.as_bool().is_none());
    assert!(s.as_null().is_none());
    assert!(s.as_object().is_none());
    assert!(s.as_array().is_none());
    assert!(s.as_u64().is_none());
    assert!(s.as_i64().is_none());
    assert!(s.as_float_text().is_none());
    assert!(!s.is_number());
    assert!(Value::Null.as_str().is_none());
}

#[test]
fn object_keys_unique_and_ascending() {
    let mut map = Object::new();
    assert!(map.is_empty());
    assert!(map.insert("b".to_owned(), Value::Bool(true)).is_none());
    assert!(map.insert("a".to_owned(), Value::Null).is_none());
    assert!(map.insert("c".to_owned(), Value::Bool(false)).is_none());
    let previous = map.insert("b".to_owned(), Value::String("again".to_owned()));
    assert_eq!(previous, Some(Value::Bool(true)));
    assert_eq!(map.len(), 3);
    assert_eq!(map.entry(0).0, "a");
    assert_eq!(map.entry(1).0, "b");
    assert_eq!(map.entry(2).0, "c");
    assert_eq!(map.get("b"), Some(&Value::String("again".to_owned())));
    assert_eq!(map.get("d"), None);
}

#[test]
fn index_by_key_and_position() {
    let mut inner = Object::new();
    inner.insert("env(DATABASE_URL)".to_owned(), Value::String(String::new()));
    let array = Value::Array(vec![Value::Bool(true), Value::Null]);
    let object = Value::Object(inner);

    assert_eq!(object.get("env(DATABASE_URL)"), Some(&Value::String(String::new())));
    assert_eq!(object.get("missing"), None);
    assert_eq!(object.get(0usize), None);
    assert_eq!(array.get(0usize), Some(&Value::Bool(true)));
    assert_eq!(array.get(1usize), Some(&Value::Null));
    assert_eq!(array.get(2usize), None);
    assert_eq!(array.get("0"), None);
    assert_eq!("env(DATABASE_URL)".index_into(&object), Some(&Value::String(String::new())));
    assert_eq!(Value::Null.get(0usize), None);
}

#[test]
fn take_leaves_null() {
    let mut v = Value::Array(vec![Value::Bool(false)]);
    let taken = v.take();
    assert_eq!(taken, Value::Array(vec![Value::Bool(false)]));
    assert_eq!(v, Value::Null);
}

#[test]
fn mutable_array_access() {
    let mut v = Value::Array(vec![Value::Null]);
    v.as_array_mut().unwrap().push(Value::Bool(true));
    assert_eq!(v, Value::Array(vec![Value::Null, Value::Bool(true)]));
    assert!(Value::Null.as_array_mut().is_none());
}

#[test]
fn signed_and_unsigned_numbers() {
    let n = Value::Number(Number::from(-1i64));
    assert!(n.is_i64());
    assert!(!n.is_u64());
    assert_eq!(n.as_i64(), Some(-1));
    assert_eq!(n.as_u64(), None);
    let big = Value::Number(Number::from(u64::MAX));
    assert!(!big.is_i64());
    assert_eq!(big.as_i64(), None);
    assert_eq!(big.as_u64(), Some(u64::MAX));
    assert_eq!(Number::from(5i32), Number::from(5u8));
}

#[test]
fn mutable_indexing() {
    let mut object = Value::Object(names());
    *object.get_mut("name").unwrap() = Value::String("Roe".to_owned());
    assert_eq!(object.get("name"), Some(&Value::String("Roe".to_owned())));
    assert_eq!(object.get("firstname"), Some(&Value::String("John".to_owned())));
    assert!(object.get_mut("missing").is_none());
    assert!(object.get_mut(0usize).is_none());

    let mut array = Value::Array(vec![Value::Null, Value::Null]);
    *array.get_mut(1usize).unwrap() = Value::Bool(true);
    assert_eq!(array, Value::Array(vec![Value::Null, Value::Bool(true)]));
    assert!(array.get_mut(2usize).is_none());

    let mut map = names();
    map.get_mut("firstname").unwrap().take();
    assert_eq!(map.get("firstname"), Some(&Value::Null));
}

#[test]
fn equality_is_structural() {
    let a = Value::Array(vec![Value::Object(names()), Value::Number(Number::from(1u8))]);
    let b = Value::Array(vec![Value::Object(names()), Value::Number(Number::from(1i64))]);
    let c = Value::Array(vec![Value::Object(names()), Value::Number(Number::from(2u8))]);
    assert_eq!(a, b);
    assert_ne!(a, c);
    assert_eq!(a.clone(), a);
    assert_ne!(Value::Null, Value::Bool(false));
    assert_ne!(Value::String("a".to_owned()), Value::String("b".to_owned()));
    let mut other = Object::new();
    other.insert("name".to_owned(), Value::String("Doe".to_owned()));
    assert_ne!(Value::Object(other), Value::Object(names()));
}

#[test]
fn values_are_ordered_by_kind_then_content() {
    let kinds = vec![
        Value::Null,
        Value::Bool(false),
        Value::Bool(true),
        Value::Number(Number::from(-1i8)),
        Value::Number(Number::from(0u8)),
        Value::String("a".to_owned()),
        Value::String("b".to_owned()),
        Value::Array(vec![]),
        Value::Array(vec![Value::Null]),
        Value::Array(vec![Value::Bool(false)]),
        Value::Object(Object::new()),
        Value::Object(names()),
    ];
    for i in 0..kinds.len() {
        for j in 0..kinds.len() {
            assert_eq!(kinds[i].partial_cmp(&kinds[j]), Some(i.cmp(&j)), "{} {}", i, j);
        }
    }
    let mut a = Object::new();
    a.insert("a".to_owned(), Value::Bool(true));
    let mut b = Object::new();
    b.insert("a".to_owned(), Value::Bool(false));
    b.insert("b".to_owned(), Value::Null);
    assert_eq!(Value::Object(a).partial_cmp(&Value::Object(b)), Some(std::cmp::Ordering::Greater));
    assert!(Value::String("Z".to_owned()) < Value::String("a".to_owned()));
}
