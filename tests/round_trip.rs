use deserr::fields::deserialize_named_fields;
use deserr::variants::{deserialize_tag, deserialize_unit_variant};
use deserr::{deserialize, DefaultError, FieldState, Value, ValuePointerRef};

fn signed(i: i64) -> Value {
    if i >= 0 {
        Value::Integer(i as u64)
    } else {
        Value::NegativeInteger(i)
    }
}

#[test]
fn scalars_round_trip() {
    for n in [0u64, 1, 255, u64::MAX] {
        let r: Result<u64, DefaultError> = deserialize(Value::Integer(n));
        assert_eq!(r, Ok(n));
    }
    for i in [i64::MIN, -1, 0, 7, i64::MAX] {
        let r: Result<i64, DefaultError> = deserialize(signed(i));
        assert_eq!(r, Ok(i));
    }
    for t in [i8::MIN, -1, 0, i8::MAX] {
        let r: Result<i8, DefaultError> = deserialize(signed(t as i64));
        assert_eq!(r, Ok(t));
    }
    let text: Result<String, DefaultError> = deserialize(Value::String("doggo".to_string()));
    assert_eq!(text, Ok("doggo".to_string()));
}

#[test]
fn nested_containers_round_trip() {
    let value = Value::Sequence(vec![
        Value::Sequence(vec![Value::Boolean(true), Value::Null]),
        Value::Sequence(vec![]),
    ]);
    let r: Result<Vec<Vec<Option<bool>>>, DefaultError> = deserialize(value);
    assert_eq!(r, Ok(vec![vec![Some(true), None], vec![]]));
    let pair: Result<(String, Vec<u8>), DefaultError> = deserialize(Value::Sequence(vec![
        Value::String("a".to_string()),
        Value::Sequence(vec![Value::Integer(1)]),
    ]));
    assert_eq!(pair, Ok(("a".to_string(), vec![1])));
}

#[test]
fn two_fields_in_either_order() {
    let keys = vec!["renamedField".to_string(), "count".to_string()];
    for flipped in [false, true] {
        let mut entries = vec![
            ("renamedField".to_string(), Value::String("bork".to_string())),
            ("count".to_string(), Value::Integer(3)),
        ];
        if flipped {
            entries.reverse();
        }
        let r: Result<(FieldState<String>, FieldState<u8>), DefaultError> =
            deserialize_named_fields(
                Value::Object(entries),
                ValuePointerRef::Origin,
                &keys,
                Vec::new(),
                true,
                (FieldState::Missing, FieldState::Present(9)),
            );
        let (name, count) = r.unwrap();
        assert_eq!(name.unwrap(), "bork".to_string());
        assert_eq!(count.unwrap(), 3);
    }
}

#[test]
fn variants_round_trip() {
    let variants = vec!["A".to_string(), "B".to_string()];
    for (i, name) in ["A", "B"].iter().enumerate() {
        let unit: Result<usize, DefaultError> = deserialize_unit_variant(
            Value::String(name.to_string()),
            ValuePointerRef::Origin,
            &variants,
        );
        assert_eq!(unit, Ok(i));
        let tagged: Result<_, DefaultError> = deserialize_tag(
            Value::Object(vec![
                ("x".to_string(), Value::Boolean(true)),
                ("t".to_string(), Value::String(name.to_string())),
            ]),
            ValuePointerRef::Origin,
            &"t".to_string(),
            &variants,
        );
        let (index, rest) = tagged.unwrap();
        assert_eq!(index, i);
        assert_eq!(rest.len(), 1);
        assert_eq!(rest[0].0, "x".to_string());
    }
}
