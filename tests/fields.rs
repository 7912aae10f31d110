use deserr::fields::{deserialize_named_fields, merge_validation};
use deserr::variants::{deserialize_tag, deserialize_unit_variant};
use deserr::{
    DefaultError, DefaultErrorContent, ErrorList, FieldState, Value, ValueKind, ValuePointer,
    ValuePointerComponent, ValuePointerRef,
};

fn s(x: &str) -> Value {
    Value::String(x.to_string())
}

fn obj(entries: Vec<(&str, Value)>) -> Value {
    Value::Object(entries.into_iter().map(|(k, v)| (k.to_string(), v)).collect())
}

fn keys(names: &[&str]) -> Vec<String> {
    names.iter().map(|n| n.to_string()).collect()
}

fn error_at(path: Vec<ValuePointerComponent>, content: DefaultErrorContent) -> DefaultError {
    DefaultError { location: ValuePointer { path }, content }
}

fn key(k: &str) -> ValuePointerComponent {
    ValuePointerComponent::Key(k.to_string())
}

#[test]
fn named_field_is_read() {
    let slots: FieldState<String> = FieldState::Missing;
    let r: Result<FieldState<String>, DefaultError> = deserialize_named_fields(
        obj(vec![("doggo", s("bork"))]),
        ValuePointerRef::Origin,
        &keys(&["doggo"]),
        Vec::new(),
        false,
        slots,
    );
    assert_eq!(r.unwrap().unwrap(), "bork".to_string());
}

#[test]
fn missing_required_field() {
    let slots: (FieldState<String>, FieldState<String>) = (FieldState::Missing, FieldState::Missing);
    let r: Result<_, DefaultError> = deserialize_named_fields(
        obj(vec![("doggo", s("bork"))]),
        ValuePointerRef::Origin,
        &keys(&["doggo", "catto"]),
        Vec::new(),
        false,
        slots,
    );
    assert_eq!(
        r.err(),
        Some(error_at(vec![], DefaultErrorContent::MissingField("catto".to_string())))
    );
}

#[test]
fn default_fills_an_absent_field() {
    let slots: (FieldState<String>, FieldState<u8>) =
        (FieldState::Missing, FieldState::Present(4));
    let r: Result<_, DefaultError> = deserialize_named_fields(
        obj(vec![("doggo", s("bork"))]),
        ValuePointerRef::Origin,
        &keys(&["doggo", "count"]),
        Vec::new(),
        false,
        slots,
    );
    let (doggo, count) = r.unwrap();
    assert_eq!(doggo.unwrap(), "bork".to_string());
    assert_eq!(count.unwrap(), 4);
    let given: (FieldState<String>, FieldState<u8>) =
        (FieldState::Missing, FieldState::Present(4));
    let r2: Result<_, DefaultError> = deserialize_named_fields(
        obj(vec![("count", Value::Integer(1)), ("doggo", s("bork"))]),
        ValuePointerRef::Origin,
        &keys(&["doggo", "count"]),
        Vec::new(),
        false,
        given,
    );
    assert_eq!(r2.unwrap().1.unwrap(), 1);
}

#[test]
fn unknown_key_is_refused_or_ignored() {
    let refused: Result<FieldState<String>, DefaultError> = deserialize_named_fields(
        obj(vec![("word", s("doggo")), ("turbo", s("doggo"))]),
        ValuePointerRef::Origin,
        &keys(&["word"]),
        Vec::new(),
        true,
        FieldState::Missing,
    );
    assert_eq!(
        refused.err(),
        Some(error_at(
            vec![],
            DefaultErrorContent::UnknownKey {
                key: "turbo".to_string(),
                accepted: vec!["word".to_string()]
            }
        ))
    );
    let ignored: Result<FieldState<String>, DefaultError> = deserialize_named_fields(
        obj(vec![("word", s("doggo")), ("turbo", s("doggo"))]),
        ValuePointerRef::Origin,
        &keys(&["word"]),
        Vec::new(),
        false,
        FieldState::Missing,
    );
    assert_eq!(ignored.unwrap().unwrap(), "doggo".to_string());
}

#[test]
fn fields_need_a_map() {
    let r: Result<FieldState<String>, DefaultError> = deserialize_named_fields(
        s("doggo"),
        ValuePointerRef::Origin,
        &keys(&["word"]),
        Vec::new(),
        false,
        FieldState::Missing,
    );
    assert_eq!(
        r.err(),
        Some(error_at(
            vec![],
            DefaultErrorContent::IncorrectValueKind { accepted: vec![ValueKind::Object] }
        ))
    );
}

#[test]
fn fail_fast_stops_at_the_first_failing_field() {
    let slots: (FieldState<u8>, FieldState<bool>) = (FieldState::Missing, FieldState::Missing);
    let r: Result<_, DefaultError> = deserialize_named_fields(
        obj(vec![("a", s("x")), ("b", s("y"))]),
        ValuePointerRef::Origin,
        &keys(&["a", "b"]),
        Vec::new(),
        false,
        slots,
    );
    assert_eq!(
        r.err(),
        Some(error_at(
            vec![key("a")],
            DefaultErrorContent::IncorrectValueKind { accepted: vec![ValueKind::Integer] }
        ))
    );
}

#[test]
fn accumulating_reports_both_failing_fields() {
    let slots: (FieldState<u8>, FieldState<bool>) = (FieldState::Missing, FieldState::Missing);
    let r: Result<_, ErrorList> = deserialize_named_fields(
        obj(vec![("a", s("x")), ("b", s("y"))]),
        ValuePointerRef::Origin,
        &keys(&["a", "b"]),
        Vec::new(),
        false,
        slots,
    );
    let expected = ErrorList {
        errors: vec![
            error_at(
                vec![key("a")],
                DefaultErrorContent::IncorrectValueKind { accepted: vec![ValueKind::Integer] },
            ),
            error_at(
                vec![key("b")],
                DefaultErrorContent::IncorrectValueKind { accepted: vec![ValueKind::Boolean] },
            ),
        ],
    };
    assert_eq!(r.err(), Some(expected));
}

#[test]
fn accumulating_reports_missing_and_unknown() {
    let slots: (FieldState<u8>, FieldState<bool>) = (FieldState::Missing, FieldState::Missing);
    let r: Result<_, ErrorList> = deserialize_named_fields(
        obj(vec![("zzz", Value::Null)]),
        ValuePointerRef::Origin,
        &keys(&["a", "b"]),
        Vec::new(),
        true,
        slots,
    );
    let expected = ErrorList {
        errors: vec![
            error_at(
                vec![],
                DefaultErrorContent::UnknownKey {
                    key: "zzz".to_string(),
                    accepted: vec!["a".to_string(), "b".to_string()],
                },
            ),
            error_at(vec![], DefaultErrorContent::MissingField("a".to_string())),
            error_at(vec![], DefaultErrorContent::MissingField("b".to_string())),
        ],
    };
    assert_eq!(r.err(), Some(expected));
}

fn either_value(entries: Vec<(&str, Value)>) -> Value {
    obj(entries)
}

#[test]
fn tag_dispatch_left_and_right() {
    let variants = keys(&["Left", "Right"]);
    let tag = "type".to_string();
    let left: Result<_, DefaultError> = deserialize_tag(
        either_value(vec![("type", s("Left")), ("doggo", s("bork"))]),
        ValuePointerRef::Origin,
        &tag,
        &variants,
    );
    let (index, rest) = left.unwrap();
    assert_eq!(index, 0);
    let doggo: Result<FieldState<String>, DefaultError> = deserialize_named_fields(
        Value::Object(rest),
        ValuePointerRef::Origin,
        &keys(&["doggo"]),
        Vec::new(),
        false,
        FieldState::Missing,
    );
    assert_eq!(doggo.unwrap().unwrap(), "bork".to_string());

    let right: Result<_, DefaultError> = deserialize_tag(
        either_value(vec![
            ("type", s("Right")),
            ("doggo", Value::Boolean(false)),
            ("catto", s("jorts")),
        ]),
        ValuePointerRef::Origin,
        &tag,
        &variants,
    );
    let (index, rest) = right.unwrap();
    assert_eq!(index, 1);
    let fields: Result<(FieldState<bool>, FieldState<String>), DefaultError> =
        deserialize_named_fields(
            Value::Object(rest),
            ValuePointerRef::Origin,
            &keys(&["doggo", "catto"]),
            Vec::new(),
            false,
            (FieldState::Missing, FieldState::Missing),
        );
    let (doggo, catto) = fields.unwrap();
    assert!(!doggo.unwrap());
    assert_eq!(catto.unwrap(), "jorts".to_string());
}

#[test]
fn tag_dispatch_failures() {
    let variants = keys(&["Left", "Right"]);
    let tag = "type".to_string();
    let origin = ValuePointerRef::Origin;
    let either = origin.push_key("either");
    let missing: Result<_, DefaultError> =
        deserialize_tag(obj(vec![("doggo", s("bork"))]), either, &tag, &variants);
    assert_eq!(
        missing.err(),
        Some(error_at(vec![key("either")], DefaultErrorContent::MissingField("type".to_string())))
    );
    let bogus: Result<_, DefaultError> = deserialize_tag(
        obj(vec![("type", s("Bogus")), ("doggo", s("bork"))]),
        origin,
        &tag,
        &variants,
    );
    assert_eq!(
        bogus.err(),
        Some(error_at(vec![], DefaultErrorContent::Unexpected(
            "Incorrect tag value `Bogus`: expected one of `Left`, `Right`".to_string()
        )))
    );
    let cased: Result<_, DefaultError> =
        deserialize_tag(obj(vec![("type", s("left"))]), origin, &tag, &variants);
    assert!(cased.is_err());
    let not_text: Result<_, DefaultError> =
        deserialize_tag(obj(vec![("type", Value::Integer(1))]), origin, &tag, &variants);
    assert_eq!(
        not_text.err(),
        Some(error_at(
            vec![key("type")],
            DefaultErrorContent::IncorrectValueKind { accepted: vec![ValueKind::String] }
        ))
    );
    let not_map: Result<_, DefaultError> = deserialize_tag(s("Left"), origin, &tag, &variants);
    assert_eq!(
        not_map.err(),
        Some(error_at(
            vec![],
            DefaultErrorContent::IncorrectValueKind { accepted: vec![ValueKind::Object] }
        ))
    );
}

#[test]
fn unit_variants_by_name() {
    let variants = keys(&["One", "Two", "Three"]);
    let two: Result<usize, DefaultError> =
        deserialize_unit_variant(s("Two"), ValuePointerRef::Origin, &variants);
    assert_eq!(two, Ok(1));
    let la: Result<usize, DefaultError> =
        deserialize_unit_variant(s("la"), ValuePointerRef::Origin, &variants);
    assert_eq!(
        la,
        Err(error_at(
            vec![],
            DefaultErrorContent::UnknownValue {
                value: "la".to_string(),
                accepted: keys(&["One", "Two", "Three"])
            }
        ))
    );
    let number: Result<usize, DefaultError> =
        deserialize_unit_variant(Value::Integer(1), ValuePointerRef::Origin, &variants);
    assert_eq!(
        number,
        Err(error_at(
            vec![],
            DefaultErrorContent::IncorrectValueKind { accepted: vec![ValueKind::String] }
        ))
    );
}

#[test]
fn validation_failure_is_merged_at_the_location() {
    let origin = ValuePointerRef::Origin;
    let at = origin.push_key("range");
    let failure = error_at(vec![], DefaultErrorContent::Validation);
    let r: Result<u8, DefaultError> = merge_validation(Err(failure), at);
    assert_eq!(r, Err(error_at(vec![], DefaultErrorContent::Validation)));
    let ok: Result<u8, DefaultError> = merge_validation::<u8, DefaultError, DefaultError>(Ok(3), at);
    assert_eq!(ok, Ok(3));
    let gathered: Result<u8, ErrorList> =
        merge_validation(Err(ErrorList { errors: vec![error_at(vec![], DefaultErrorContent::Validation)] }), at);
    assert_eq!(gathered.unwrap_err().errors.len(), 1);
}

#[test]
fn field_state_helpers() {
    let present: FieldState<u8> = FieldState::Present(2);
    assert!(!present.is_missing());
    let missing: FieldState<u8> = FieldState::Missing;
    assert!(missing.is_missing());
    let failed: FieldState<u8> = FieldState::Failed;
    assert_eq!(failed.unwrap_or(9), 9);
    assert_eq!(FieldState::Present(2u8).unwrap_or(9), 2);
    assert_eq!(FieldState::<u8>::Missing.ok_or("gone"), Err("gone"));
    assert_eq!(FieldState::Present(5u8).ok_or("gone"), Ok(5));
    let doubled = FieldState::Present(5u8).map(|x| (x as u16) * 2);
    assert_eq!(doubled.unwrap(), 10);
    assert!(FieldState::<u8>::Failed.map(|x| x).is_missing() == false);
}

#[test]
fn declared_missing_field_error() {
    let custom = error_at(
        vec![],
        DefaultErrorContent::Unexpected(
            "I really need the query field, please give it to me uwu".to_string(),
        ),
    );
    let slots: (FieldState<String>, FieldState<String>) = (FieldState::Missing, FieldState::Missing);
    let r: Result<_, DefaultError> = deserialize_named_fields(
        obj(vec![("doggo", s("bork"))]),
        ValuePointerRef::Origin,
        &keys(&["doggo", "catto"]),
        vec![None, Some(custom)],
        false,
        slots,
    );
    assert_eq!(
        r.err(),
        Some(error_at(
            vec![],
            DefaultErrorContent::Unexpected(
                "I really need the query field, please give it to me uwu".to_string()
            )
        ))
    );
    let unused = error_at(vec![], DefaultErrorContent::CustomMissingField(1));
    let full: Result<(FieldState<String>, FieldState<String>), DefaultError> =
        deserialize_named_fields(
            obj(vec![("doggo", s("bork")), ("catto", s("jorts"))]),
            ValuePointerRef::Origin,
            &keys(&["doggo", "catto"]),
            vec![None, Some(unused)],
            false,
            (FieldState::Missing, FieldState::Missing),
        );
    assert_eq!(full.unwrap().1.unwrap(), "jorts".to_string());
}
