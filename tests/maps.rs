use deserr::maps::parse_u64_key;
use deserr::{
    deserialize, DefaultError, DefaultErrorContent, ErrorList, Value, ValueKind, ValuePointer,
    ValuePointerComponent,
};
use std::collections::{BTreeMap, BTreeSet};

fn obj(entries: Vec<(&str, Value)>) -> Value {
    Value::Object(entries.into_iter().map(|(k, v)| (k.to_string(), v)).collect())
}

fn error_at(path: Vec<ValuePointerComponent>, content: DefaultErrorContent) -> DefaultError {
    DefaultError { location: ValuePointer { path }, content }
}

#[test]
fn keys_parse_as_decimal() {
    assert_eq!(parse_u64_key("0"), Some(0));
    assert_eq!(parse_u64_key("+42"), Some(42));
    assert_eq!(parse_u64_key("18446744073709551615"), Some(u64::MAX));
    assert_eq!(parse_u64_key("18446744073709551616"), None);
    assert_eq!(parse_u64_key(""), None);
    assert_eq!(parse_u64_key("+"), None);
    assert_eq!(parse_u64_key("-1"), None);
    assert_eq!(parse_u64_key("1a"), None);
    assert_eq!(parse_u64_key("٣"), None);
}

#[test]
fn map_with_integer_keys() {
    let r: Result<BTreeMap<u64, String>, DefaultError> = deserialize(obj(vec![
        ("2", Value::String("two".to_string())),
        ("1", Value::String("one".to_string())),
    ]));
    let mut expected = BTreeMap::new();
    expected.insert(1, "one".to_string());
    expected.insert(2, "two".to_string());
    assert_eq!(r, Ok(expected));
}

#[test]
fn map_refuses_a_bad_key_and_a_bad_value() {
    let bad_key: Result<BTreeMap<u64, u8>, DefaultError> =
        deserialize(obj(vec![("x", Value::Integer(1))]));
    assert_eq!(
        bad_key,
        Err(error_at(
            vec![],
            DefaultErrorContent::Unexpected(
                "the key \"x\" could not be deserialized into the key type `u64`".to_string()
            )
        ))
    );
    let bad_value: Result<BTreeMap<u64, u8>, DefaultError> =
        deserialize(obj(vec![("7", Value::Null)]));
    assert_eq!(
        bad_value,
        Err(error_at(
            vec![ValuePointerComponent::Key("7".to_string())],
            DefaultErrorContent::IncorrectValueKind { accepted: vec![ValueKind::Integer] }
        ))
    );
    let gathered: Result<BTreeMap<u64, u8>, ErrorList> =
        deserialize(obj(vec![("x", Value::Integer(1)), ("7", Value::Null), ("8", Value::Integer(8))]));
    assert_eq!(gathered.unwrap_err().errors.len(), 2);
    let not_map: Result<BTreeMap<u64, u8>, DefaultError> = deserialize(Value::Sequence(vec![]));
    assert_eq!(
        not_map,
        Err(error_at(
            vec![],
            DefaultErrorContent::IncorrectValueKind { accepted: vec![ValueKind::Object] }
        ))
    );
}

#[test]
fn set_collapses_duplicates() {
    let r: Result<BTreeSet<u64>, DefaultError> = deserialize(Value::Sequence(vec![
        Value::Integer(3),
        Value::Integer(1),
        Value::Integer(3),
    ]));
    let expected: BTreeSet<u64> = [1, 3].into_iter().collect();
    assert_eq!(r, Ok(expected));
    let bad: Result<BTreeSet<u64>, DefaultError> =
        deserialize(Value::Sequence(vec![Value::Integer(3), Value::Boolean(true)]));
    assert_eq!(
        bad,
        Err(error_at(
            vec![ValuePointerComponent::Index(1)],
            DefaultErrorContent::IncorrectValueKind { accepted: vec![ValueKind::Integer] }
        ))
    );
}

use deserr::keys::MapKey;
use deserr::maps::KeyedMap;
use std::collections::{HashMap, HashSet};

#[test]
fn map_with_char_keys() {
    let r: Result<KeyedMap<char, usize>, DefaultError> =
        deserialize(obj(vec![("a", Value::Integer(4)), ("b", Value::Integer(5))]));
    let m = r.unwrap();
    assert_eq!(m.get(&'a'), Some(&4));
    assert_eq!(m.get(&'b'), Some(&5));
    assert_eq!(m.get(&'c'), None);
    let bad: Result<KeyedMap<char, usize>, DefaultError> =
        deserialize(obj(vec![("ab", Value::Integer(4))]));
    assert_eq!(
        bad.err(),
        Some(error_at(
            vec![],
            DefaultErrorContent::Unexpected(
                "the key \"ab\" could not be deserialized into the key type `char`".to_string()
            )
        ))
    );
}

#[test]
fn map_with_string_keys_later_entry_wins() {
    let r: Result<KeyedMap<String, bool>, DefaultError> = deserialize(obj(vec![
        ("x", Value::Boolean(true)),
        ("y", Value::Boolean(false)),
        ("x", Value::Boolean(false)),
    ]));
    let m = r.unwrap();
    assert_eq!(m.get(&"x".to_string()), Some(&false));
    assert_eq!(m.get(&"y".to_string()), Some(&false));
    let pairs = m.into_pairs();
    assert_eq!(pairs.len(), 3);
}

#[test]
fn signed_and_narrow_integer_keys() {
    let r: Result<BTreeMap<i8, u8>, DefaultError> =
        deserialize(obj(vec![("-128", Value::Integer(1)), ("+7", Value::Integer(2))]));
    let mut expected = BTreeMap::new();
    expected.insert(-128i8, 1u8);
    expected.insert(7i8, 2u8);
    assert_eq!(r, Ok(expected));
    let over: Result<BTreeMap<i8, u8>, DefaultError> =
        deserialize(obj(vec![("-129", Value::Integer(1))]));
    assert_eq!(
        over.unwrap_err().content,
        DefaultErrorContent::Unexpected(
            "the key \"-129\" could not be deserialized into the key type `i8`".to_string()
        )
    );
    let neg_unsigned: Result<BTreeMap<u16, u8>, DefaultError> =
        deserialize(obj(vec![("-0", Value::Integer(1))]));
    assert!(neg_unsigned.is_err());
    assert_eq!(i32::parse_key(&"-+1".to_string()), None);
    assert_eq!(i32::parse_key(&"-2147483648".to_string()), Some(i32::MIN));
    assert_eq!(isize::parse_key(&"12".to_string()), Some(12));
    assert_eq!(char::parse_key(&"é".to_string()), Some('é'));
    assert_eq!(String::parse_key(&"any thing".to_string()), Some("any thing".to_string()));
}

#[test]
fn hash_map_and_hash_set() {
    let r: Result<HashMap<u32, String>, DefaultError> =
        deserialize(obj(vec![("1", Value::String("one".to_string()))]));
    let mut expected = HashMap::new();
    expected.insert(1u32, "one".to_string());
    assert_eq!(r, Ok(expected));
    let set: Result<HashSet<u64>, DefaultError> = deserialize(Value::Sequence(vec![
        Value::Integer(2),
        Value::Integer(2),
        Value::Integer(5),
    ]));
    let expected_set: HashSet<u64> = [2, 5].into_iter().collect();
    assert_eq!(set, Ok(expected_set));
}
