use deserr::fields::deserialize_named_fields;
use deserr::helpers::{closest_within, did_you_mean};
use deserr::json::{
    location_json_description, value_description_with_kind_json, value_kinds_description_json,
};
use deserr::naming::{key_name_for_ident, RenameAll, TagType};
use deserr::query_params::{location_query_param_description, value_kinds_description_query_param};
use deserr::variants::deserialize_unit_variant;
use deserr::{
    deserialize, take_cf_content, DeserializeError, ErrorKind, FieldState, JsonError,
    MergeWithError, QueryParamError, Value, ValueKind, ValuePointerComponent, ValuePointerRef,
};
use std::ops::ControlFlow;

fn s(x: &str) -> Value {
    Value::String(x.to_string())
}

fn obj(entries: Vec<(&str, Value)>) -> Value {
    Value::Object(entries.into_iter().map(|(k, v)| (k.to_string(), v)).collect())
}

fn names(xs: &[&str]) -> Vec<String> {
    xs.iter().map(|n| n.to_string()).collect()
}

fn kinds_text(kinds: Vec<ValueKind>) -> String {
    value_kinds_description_json(&kinds)
}

#[test]
fn test_value_kinds_description_json() {
    assert_eq!(kinds_text(vec![]), "a different value");
    assert_eq!(kinds_text(vec![ValueKind::Null]), "null");
    assert_eq!(kinds_text(vec![ValueKind::Boolean]), "a boolean");
    assert_eq!(kinds_text(vec![ValueKind::Integer]), "a positive integer");
    assert_eq!(kinds_text(vec![ValueKind::NegativeInteger]), "a negative integer");
    assert_eq!(kinds_text(vec![ValueKind::Float]), "a number");
    assert_eq!(kinds_text(vec![ValueKind::String]), "a string");
    assert_eq!(kinds_text(vec![ValueKind::Sequence]), "an array");
    assert_eq!(kinds_text(vec![ValueKind::Object]), "an object");
    assert_eq!(kinds_text(vec![ValueKind::Integer, ValueKind::Boolean]), "a boolean or a positive integer");
    assert_eq!(kinds_text(vec![ValueKind::Null, ValueKind::Integer]), "null or a positive integer");
    assert_eq!(kinds_text(vec![ValueKind::Sequence, ValueKind::NegativeInteger]), "a negative integer or an array");
    assert_eq!(kinds_text(vec![ValueKind::Integer, ValueKind::Float]), "a number");
    assert_eq!(kinds_text(vec![ValueKind::Integer, ValueKind::Float, ValueKind::NegativeInteger]), "a number");
    assert_eq!(kinds_text(vec![ValueKind::Integer, ValueKind::Float, ValueKind::NegativeInteger, ValueKind::Null]), "null or a number");
    assert_eq!(
        kinds_text(vec![ValueKind::Boolean, ValueKind::Integer, ValueKind::Float, ValueKind::NegativeInteger, ValueKind::Null]),
        "null, a boolean, or a number"
    );
    assert_eq!(
        kinds_text(vec![ValueKind::Null, ValueKind::Boolean, ValueKind::Integer, ValueKind::Float, ValueKind::NegativeInteger, ValueKind::Null]),
        "null, a boolean, or a number"
    );
    assert_eq!(kinds_text(vec![ValueKind::Integer, ValueKind::NegativeInteger]), "an integer");
    assert_eq!(kinds_text(vec![ValueKind::String, ValueKind::Sequence, ValueKind::Object]), "a string, an array, or an object");
}

#[test]
fn test_value_kinds_description_query_param() {
    assert_eq!(value_kinds_description_query_param(&vec![]), "a string");
    assert_eq!(
        value_kinds_description_query_param(&vec![ValueKind::Boolean, ValueKind::Integer]),
        "a string"
    );
}

#[test]
fn test_pointer_as_json() {
    let origin = ValuePointerRef::Origin;
    assert_eq!(origin.as_json(), "");
    let top = origin.push_key("top");
    assert_eq!(top.as_json(), ".top");
    let left = origin.push_key("left");
    let first = left.push_index(0);
    assert_eq!(first.as_json(), ".left[0]");
    let third = left.push_index(2);
    assert_eq!(third.as_json(), ".left[2]");
    let right = origin.push_key("right");
    let second = right.push_index(1);
    let deep = second.push_key("top");
    assert_eq!(deep.as_json(), ".right[1].top");
}

#[test]
fn pointer_queries_and_owned_form() {
    let origin = ValuePointerRef::Origin;
    assert!(origin.is_origin());
    assert_eq!(origin.last_field(), None);
    let a = origin.push_key("a");
    let two = a.push_index(2);
    assert!(!two.is_origin());
    assert_eq!(two.last_field(), Some("a"));
    let owned = two.to_owned();
    assert_eq!(
        owned.path,
        vec![ValuePointerComponent::Key("a".to_string()), ValuePointerComponent::Index(2)]
    );
    assert_eq!(ValuePointerRef::default().to_owned().path, vec![]);
}

#[test]
fn location_descriptions() {
    let origin = ValuePointerRef::Origin;
    assert_eq!(location_json_description(origin, " at"), "");
    let key1 = origin.push_key("key1");
    let eight = key1.push_index(8);
    let key2 = eight.push_key("key2");
    assert_eq!(location_json_description(key2, " at"), " at `.key1[8].key2`");
    assert_eq!(location_query_param_description(origin, " at"), "");
    let key5 = origin.push_key("key5");
    let two = key5.push_index(2);
    assert_eq!(location_query_param_description(two, " at"), " at `key5[2]`");
    let inner = two.push_key("inner");
    assert_eq!(location_query_param_description(inner, " in"), " in `key5[2].inner`");
}

#[test]
fn received_value_descriptions() {
    assert_eq!(value_description_with_kind_json(&Value::Null), "null");
    assert_eq!(value_description_with_kind_json(&Value::Boolean(true)), "a boolean: `true`");
    assert_eq!(value_description_with_kind_json(&Value::Integer(42)), "a positive integer: `42`");
    assert_eq!(
        value_description_with_kind_json(&Value::NegativeInteger(-2)),
        "a negative integer: `-2`"
    );
    assert_eq!(value_description_with_kind_json(&s("hi \"you\"")), "a string: `\"hi \\\"you\\\"\"`");
    assert_eq!(value_description_with_kind_json(&Value::Sequence(vec![])), "an array: `[]`");
    assert_eq!(
        value_description_with_kind_json(&s("a\nb\u{1}\\")),
        "a string: `\"a\\nb\\u0001\\\\\"`"
    );
    assert_eq!(
        value_description_with_kind_json(&obj(vec![("a", Value::Sequence(vec![Value::Null, Value::Boolean(false)])), ("b", s("x"))])),
        "an object: `{\"a\":[null,false],\"b\":\"x\"}`"
    );
    assert_eq!(
        value_description_with_kind_json(&Value::Sequence(vec![Value::Integer(1), Value::Float(0)])),
        "an array"
    );
}

#[test]
fn did_you_mean_suggestions() {
    let accepted = names(&["q", "filter", "sort", "attributesToHighlight"]);
    assert_eq!(did_you_mean("filler", &accepted), "did you mean `filter`? ");
    assert_eq!(did_you_mean("sart", &accepted), "did you mean `sort`? ");
    assert_eq!(
        did_you_mean("attributes_to_highlight", &accepted),
        "did you mean `attributesToHighlight`? "
    );
    assert_eq!(
        did_you_mean("attributesToHighloght", &accepted),
        "did you mean `attributesToHighlight`? "
    );
    assert_eq!(did_you_mean("a", &accepted), "");
    assert_eq!(did_you_mean("query", &accepted), "");
    assert_eq!(did_you_mean("filterable", &accepted), "");
    assert_eq!(did_you_mean("sortable", &accepted), "");
    assert_eq!(did_you_mean("sor", &accepted), "");
}

#[test]
fn closest_distance_within_budget() {
    assert_eq!(closest_within(&vec![3, 1, 1, 0], 1), Some(3));
    assert_eq!(closest_within(&vec![3, 1, 1], 1), Some(1));
    assert_eq!(closest_within(&vec![3, 4], 2), None);
    assert_eq!(closest_within(&vec![], 5), None);
}

#[test]
fn json_error_merge_keeps_the_new_error() {
    let first = JsonError::new("first".to_string());
    let second = JsonError::new("second".to_string());
    let merged = JsonError::merge(Some(first), second, ValuePointerRef::Origin);
    match merged {
        ControlFlow::Break(e) => assert_eq!(e.message(), "second"),
        ControlFlow::Continue(_) => panic!("a JSON error stops at once"),
    }
    let built = take_cf_content(JsonError::error(
        None,
        ErrorKind::Unexpected { msg: "boom".to_string() },
        ValuePointerRef::Origin,
    ));
    assert_eq!(built.message(), "Invalid value: boom");
}

#[test]
fn json_error_through_deserialize() {
    let r: Result<bool, JsonError> = deserialize(Value::Integer(1));
    assert_eq!(
        r.err().unwrap().message(),
        "Invalid value type: expected a boolean, but found a positive integer: `1`"
    );
}

#[test]
fn key_names() {
    assert_eq!(key_name_for_ident("renamed_field".to_string(), Some(&RenameAll::CamelCase), None), "renamedField");
    assert_eq!(key_name_for_ident("multiple_words".to_string(), Some(&RenameAll::CamelCase), None), "multipleWords");
    assert_eq!(key_name_for_ident("SCREAMING_WORD".to_string(), Some(&RenameAll::LowerCase), None), "screaming_word");
    assert_eq!(key_name_for_ident("word".to_string(), None, None), "word");
    assert_eq!(key_name_for_ident("smol".to_string(), Some(&RenameAll::LowerCase), Some("BORK")), "BORK");
    assert!(matches!(TagType::default(), TagType::External));
}

/// A struct of one field `me` read with the field engine, as a derived
/// implementation reads it.
fn read_me<T: deserr::Deserr<E>, E: DeserializeError>(
    value: Value,
    deny_unknown_fields: bool,
) -> Result<FieldState<T>, E> {
    deserialize_named_fields(
        value,
        ValuePointerRef::Origin,
        &names(&["me"]),
        Vec::new(),
        deny_unknown_fields,
        FieldState::Missing,
    )
}

/// A struct `{ me: usize, and: String }` that refuses unknown fields.
fn read_me_and<E: DeserializeError>(value: Value) -> Result<(FieldState<u64>, FieldState<String>), E> {
    deserialize_named_fields(
        value,
        ValuePointerRef::Origin,
        &names(&["me", "and"]),
        Vec::new(),
        true,
        (FieldState::Missing, FieldState::Missing),
    )
}

/// A field `me` whose type is an enum of unit variants.
fn read_me_variant<E: DeserializeError>(value: Value, variants: &Vec<String>) -> Result<usize, E> {
    read_variant_at("me", value, variants)
}

/// A field `key` whose type is an enum of unit variants.
fn read_variant_at<E: DeserializeError>(
    key: &str,
    value: Value,
    variants: &Vec<String>,
) -> Result<usize, E> {
    let origin = ValuePointerRef::Origin;
    let at = origin.push_key(key);
    deserialize_unit_variant(value, at, variants)
}

fn lowercase_variants() -> Vec<String> {
    vec![
        key_name_for_ident("TheObjectiveCamelIsNOICE".to_string(), Some(&RenameAll::LowerCase), None),
        key_name_for_ident("Bloup".to_string(), Some(&RenameAll::LowerCase), None),
    ]
}

#[test]
fn json_error_msg_missing_field() {
    let r = read_me::<u64, JsonError>(obj(vec![("toto", Value::Integer(2))]), false);
    assert_eq!(r.err().unwrap().message(), "Missing field `me`");
}

#[test]
fn json_error_msg_incorrect() {
    let r = read_me::<usize, JsonError>(obj(vec![("me", Value::Sequence(vec![Value::Integer(2)]))]), false);
    assert_eq!(
        r.err().unwrap().message(),
        "Invalid value type at `.me`: expected a positive integer, but found an array: `[2]`"
    );
    let v = read_me_variant::<JsonError>(s("la"), &names(&["One", "Two", "Three"]));
    assert_eq!(
        v.err().unwrap().message(),
        "Unknown value `la` at `.me`: expected one of `One`, `Two`, `Three`"
    );
    let w = read_me_variant::<JsonError>(s("la"), &lowercase_variants());
    assert_eq!(
        w.err().unwrap().message(),
        "Unknown value `la` at `.me`: expected one of `theobjectivecamelisnoice`, `bloup`"
    );
}

#[test]
fn json_error_msg_unknown_key() {
    let r = read_me::<u64, JsonError>(obj(vec![("me", Value::Integer(2)), ("u", s("uwu"))]), true);
    assert_eq!(r.err().unwrap().message(), "Unknown field `u`: expected one of `me`");
    let r2 = read_me_and::<JsonError>(obj(vec![
        ("me", Value::Integer(2)),
        ("and", s("u")),
        ("uwu", s("OwO")),
    ]));
    assert_eq!(r2.err().unwrap().message(), "Unknown field `uwu`: expected one of `me`, `and`");
}

#[test]
fn json_error_msg_unexpected() {
    let short = read_me::<(usize, String), JsonError>(
        obj(vec![("me", Value::Sequence(vec![Value::Integer(2)]))]),
        true,
    );
    assert_eq!(
        short.err().unwrap().message(),
        "Invalid value at `.me`: the sequence should have exactly 2 elements"
    );
    let long = read_me::<(usize, String), JsonError>(
        obj(vec![(
            "me",
            Value::Sequence(vec![Value::Integer(2), Value::Integer(3), Value::Integer(4)]),
        )]),
        true,
    );
    assert_eq!(
        long.err().unwrap().message(),
        "Invalid value at `.me`: the sequence should have exactly 2 elements"
    );
}

/// The struct of the did-you-mean cases: fields `q`, `filter`, `sort` and
/// `attributes_to_highlight`, renamed to camel case, refusing unknown fields.
fn did_you_mean_keys() -> Vec<String> {
    ["q", "filter", "sort", "attributes_to_highlight"]
        .iter()
        .map(|f| key_name_for_ident(f.to_string(), Some(&RenameAll::CamelCase), None))
        .collect()
}

/// The enum `Values { Q, Filter, Sort, AttributesToHighLight }`, renamed to
/// camel case.
fn did_you_mean_variants() -> Vec<String> {
    ["Q", "Filter", "Sort", "AttributesToHighLight"]
        .iter()
        .map(|v| key_name_for_ident(v.to_string(), Some(&RenameAll::CamelCase), None))
        .collect()
}

fn unknown_field_message<E: DeserializeError>(key: &str) -> Result<(), E> {
    let r: Result<(FieldState<String>, FieldState<String>, FieldState<String>, FieldState<String>), E> =
        deserialize_named_fields(
            obj(vec![(key, s("doggo"))]),
            ValuePointerRef::Origin,
            &did_you_mean_keys(),
            Vec::new(),
            true,
            (FieldState::Missing, FieldState::Missing, FieldState::Missing, FieldState::Missing),
        );
    r.map(|_| ())
}

#[test]
fn json_error_did_you_mean() {
    let field = |k: &str| unknown_field_message::<JsonError>(k).err().unwrap().message();
    let value = |v: &str| {
        read_variant_at::<JsonError>("q", s(v), &did_you_mean_variants()).err().unwrap().message()
    };
    assert_eq!(field("filler"), "Unknown field `filler`: did you mean `filter`? expected one of `q`, `filter`, `sort`, `attributesToHighlight`");
    assert_eq!(field("sart"), "Unknown field `sart`: did you mean `sort`? expected one of `q`, `filter`, `sort`, `attributesToHighlight`");
    assert_eq!(field("attributes_to_highlight"), "Unknown field `attributes_to_highlight`: did you mean `attributesToHighlight`? expected one of `q`, `filter`, `sort`, `attributesToHighlight`");
    assert_eq!(field("attributesToHighloght"), "Unknown field `attributesToHighloght`: did you mean `attributesToHighlight`? expected one of `q`, `filter`, `sort`, `attributesToHighlight`");
    assert_eq!(field("a"), "Unknown field `a`: expected one of `q`, `filter`, `sort`, `attributesToHighlight`");
    assert_eq!(field("query"), "Unknown field `query`: expected one of `q`, `filter`, `sort`, `attributesToHighlight`");
    assert_eq!(field("filterable"), "Unknown field `filterable`: expected one of `q`, `filter`, `sort`, `attributesToHighlight`");
    assert_eq!(field("sortable"), "Unknown field `sortable`: expected one of `q`, `filter`, `sort`, `attributesToHighlight`");
    assert_eq!(value("filler"), "Unknown value `filler` at `.q`: did you mean `filter`? expected one of `q`, `filter`, `sort`, `attributesToHighLight`");
    assert_eq!(value("sart"), "Unknown value `sart` at `.q`: did you mean `sort`? expected one of `q`, `filter`, `sort`, `attributesToHighLight`");
    assert_eq!(value("attributes_to_highlight"), "Unknown value `attributes_to_highlight` at `.q`: expected one of `q`, `filter`, `sort`, `attributesToHighLight`");
    assert_eq!(value("attributesToHighloght"), "Unknown value `attributesToHighloght` at `.q`: did you mean `attributesToHighLight`? expected one of `q`, `filter`, `sort`, `attributesToHighLight`");
    assert_eq!(value("a"), "Unknown value `a` at `.q`: expected one of `q`, `filter`, `sort`, `attributesToHighLight`");
    assert_eq!(value("query"), "Unknown value `query` at `.q`: expected one of `q`, `filter`, `sort`, `attributesToHighLight`");
    assert_eq!(value("filterable"), "Unknown value `filterable` at `.q`: expected one of `q`, `filter`, `sort`, `attributesToHighLight`");
    assert_eq!(value("sortable"), "Unknown value `sortable` at `.q`: expected one of `q`, `filter`, `sort`, `attributesToHighLight`");
}

#[test]
fn query_params_error_msg_missing_field() {
    let r = read_me::<u64, QueryParamError>(obj(vec![("toto", Value::Integer(2))]), false);
    assert_eq!(r.err().unwrap().message(), "Missing parameter `me`");
}

#[test]
fn query_params_error_msg_incorrect() {
    let r = read_me::<usize, QueryParamError>(
        obj(vec![("me", Value::Sequence(vec![Value::Integer(2)]))]),
        false,
    );
    assert_eq!(
        r.err().unwrap().message(),
        "Invalid value type for parameter `me`: expected a string, but found multiple values"
    );
    let v = read_me_variant::<QueryParamError>(s("la"), &names(&["One", "Two", "Three"]));
    assert_eq!(
        v.err().unwrap().message(),
        "Unknown value `la` for parameter `me`: expected one of `One`, `Two`, `Three`"
    );
    let w = read_me_variant::<QueryParamError>(s("la"), &lowercase_variants());
    assert_eq!(
        w.err().unwrap().message(),
        "Unknown value `la` for parameter `me`: expected one of `theobjectivecamelisnoice`, `bloup`"
    );
}

#[test]
fn query_params_error_msg_unknown_key() {
    let r = read_me::<u64, QueryParamError>(obj(vec![("me", Value::Integer(2)), ("u", s("uwu"))]), true);
    assert_eq!(r.err().unwrap().message(), "Unknown parameter `u`: expected one of `me`");
    let r2 = read_me_and::<QueryParamError>(obj(vec![
        ("me", Value::Integer(2)),
        ("and", s("u")),
        ("uwu", s("OwO")),
    ]));
    assert_eq!(r2.err().unwrap().message(), "Unknown parameter `uwu`: expected one of `me`, `and`");
}

#[test]
fn query_params_error_msg_unexpected() {
    let short = read_me::<(usize, String), QueryParamError>(
        obj(vec![("me", Value::Sequence(vec![Value::Integer(2)]))]),
        true,
    );
    assert_eq!(
        short.err().unwrap().message(),
        "Invalid value in parameter `me`: the sequence should have exactly 2 elements"
    );
    let long = read_me::<(usize, String), QueryParamError>(
        obj(vec![(
            "me",
            Value::Sequence(vec![Value::Integer(2), Value::Integer(3), Value::Integer(4)]),
        )]),
        true,
    );
    assert_eq!(
        long.err().unwrap().message(),
        "Invalid value in parameter `me`: the sequence should have exactly 2 elements"
    );
    let k: Result<u8, QueryParamError> = deserr::Deserr::deserialize_from_value(
        s("2"),
        ValuePointerRef::Origin.push_key("me"),
    );
    assert!(k.is_err());
}

#[test]
fn query_params_error_did_you_mean() {
    let field = |k: &str| unknown_field_message::<QueryParamError>(k).err().unwrap().message();
    assert_eq!(field("filler"), "Unknown parameter `filler`: did you mean `filter`? expected one of `q`, `filter`, `sort`, `attributesToHighlight`");
    assert_eq!(field("sart"), "Unknown parameter `sart`: did you mean `sort`? expected one of `q`, `filter`, `sort`, `attributesToHighlight`");
    assert_eq!(field("a"), "Unknown parameter `a`: expected one of `q`, `filter`, `sort`, `attributesToHighlight`");
    assert_eq!(field("sortable"), "Unknown parameter `sortable`: expected one of `q`, `filter`, `sort`, `attributesToHighlight`");
    let value = |v: &str| {
        read_me_variant::<QueryParamError>(s(v), &did_you_mean_variants()).err().unwrap().message()
    };
    assert_eq!(value("sart"), "Unknown value `sart` for parameter `me`: did you mean `sort`? expected one of `q`, `filter`, `sort`, `attributesToHighLight`");
    assert_eq!(value("query"), "Unknown value `query` for parameter `me`: expected one of `q`, `filter`, `sort`, `attributesToHighLight`");
}

#[test]
fn deserialize_char() {
    let ok = read_me_char(s("j"));
    assert_eq!(ok.unwrap().unwrap(), 'j');
    let long = read_me_char(s("jorts"));
    assert_eq!(
        long.err().unwrap().message(),
        "Invalid value at `.c`: expected a string of one character, but found the following string of 5 characters: `jorts`"
    );
    let empty = read_me_char(s(""));
    assert_eq!(
        empty.err().unwrap().message(),
        "Invalid value at `.c`: expected a string of one character, but found an empty string"
    );
    let null = read_me_char(Value::Null);
    assert_eq!(
        null.err().unwrap().message(),
        "Invalid value type at `.c`: expected a string, but found null"
    );
}

/// The struct `{ c: char }` that refuses unknown fields, reading `c` from
/// `value`.
fn read_me_char(value: Value) -> Result<FieldState<char>, JsonError> {
    deserialize_named_fields(
        obj(vec![("c", value)]),
        ValuePointerRef::Origin,
        &names(&["c"]),
        Vec::new(),
        true,
        FieldState::Missing,
    )
}
