use deserr::fields::deserialize_named_fields;
use deserr::naming::{key_name_for_ident, RenameAll};
use deserr::variants::deserialize_tag;
use deserr::{Deserr, DeserializeError, FieldState, JsonError, Value, ValuePointerRef};

fn s(x: &str) -> Value {
    Value::String(x.to_string())
}

fn obj(entries: Vec<(&str, Value)>) -> Value {
    Value::Object(entries.into_iter().map(|(k, v)| (k.to_string(), v)).collect())
}

fn names(xs: &[&str]) -> Vec<String> {
    xs.iter().map(|n| n.to_string()).collect()
}

#[derive(Debug, PartialEq)]
enum Either {
    Left { doggo: String },
    Right { doggo: bool, catto: String },
}

/// `Either` tagged by `type`, as a derived implementation reads it, with the
/// variant keys given.
fn read_either<E: DeserializeError>(
    value: Value,
    location: ValuePointerRef,
    variants: &Vec<String>,
) -> Result<Either, E> {
    let (index, rest) = deserialize_tag::<E>(value, location, &"type".to_string(), variants)?;
    if index == 0 {
        let doggo: FieldState<String> = deserialize_named_fields(
            Value::Object(rest),
            location,
            &names(&["doggo"]),
            Vec::new(),
            false,
            FieldState::Missing,
        )?;
        Ok(Either::Left { doggo: doggo.unwrap() })
    } else {
        let (doggo, catto): (FieldState<bool>, FieldState<String>) = deserialize_named_fields(
            Value::Object(rest),
            location,
            &names(&["doggo", "catto"]),
            Vec::new(),
            false,
            (FieldState::Missing, FieldState::Missing),
        )?;
        Ok(Either::Right { doggo: doggo.unwrap(), catto: catto.unwrap() })
    }
}

/// `struct Struct { either: Either }`: the value under `either`.
fn read_struct_either(value: Value, variants: &Vec<String>) -> Result<Either, JsonError> {
    let inner = match value {
        Value::Object(mut entries) => entries.remove(0).1,
        other => other,
    };
    let origin = ValuePointerRef::Origin;
    read_either(inner, origin.push_key("either"), variants)
}

#[test]
fn tag_tagged_enum() {
    let variants = names(&["Left", "Right"]);
    let left = read_struct_either(
        obj(vec![("either", obj(vec![("type", s("Left")), ("doggo", s("bork"))]))]),
        &variants,
    );
    assert_eq!(left.unwrap(), Either::Left { doggo: "bork".to_string() });
    let right = read_struct_either(
        obj(vec![(
            "either",
            obj(vec![("type", s("Right")), ("doggo", Value::Boolean(false)), ("catto", s("jorts"))]),
        )]),
        &variants,
    );
    assert_eq!(right.unwrap(), Either::Right { doggo: false, catto: "jorts".to_string() });
    let missing = read_struct_either(
        obj(vec![("either", obj(vec![("doggo", s("bork"))]))]),
        &variants,
    );
    assert_eq!(missing.err().unwrap().message(), "Missing field `type` inside `.either`");
    let missing2 = read_struct_either(
        obj(vec![("either", obj(vec![("doggo", Value::Boolean(false)), ("catto", s("jorts"))]))]),
        &variants,
    );
    assert_eq!(missing2.err().unwrap().message(), "Missing field `type` inside `.either`");
}

#[test]
fn tag_tagged_enum_plus_rename() {
    let variants = vec![
        key_name_for_ident("Left".to_string(), Some(&RenameAll::LowerCase), None),
        key_name_for_ident("Right".to_string(), Some(&RenameAll::LowerCase), Some("RIGHT")),
    ];
    let left = read_struct_either(
        obj(vec![("either", obj(vec![("type", s("left")), ("doggo", s("bork"))]))]),
        &variants,
    );
    assert_eq!(left.unwrap(), Either::Left { doggo: "bork".to_string() });
    let right = read_struct_either(
        obj(vec![(
            "either",
            obj(vec![("type", s("RIGHT")), ("doggo", Value::Boolean(false)), ("catto", s("jorts"))]),
        )]),
        &variants,
    );
    assert_eq!(right.unwrap(), Either::Right { doggo: false, catto: "jorts".to_string() });
    let wrong = read_struct_either(
        obj(vec![("either", obj(vec![("type", s("Left")), ("doggo", s("bork"))]))]),
        &variants,
    );
    assert_eq!(
        wrong.err().unwrap().message(),
        "Invalid value at `.either`: Incorrect tag value `Left`: expected one of `left`, `RIGHT`"
    );
    let wrong2 = read_struct_either(
        obj(vec![(
            "either",
            obj(vec![("type", s("Right")), ("doggo", Value::Boolean(false)), ("catto", s("jorts"))]),
        )]),
        &variants,
    );
    assert_eq!(
        wrong2.err().unwrap().message(),
        "Invalid value at `.either`: Incorrect tag value `Right`: expected one of `left`, `RIGHT`"
    );
}

/// `struct Struct { doggo: Option<String> }`, the field starting from `init`
/// (a default when present), unknown keys refused or not.
fn read_doggo(
    value: Value,
    init: FieldState<Option<String>>,
    deny_unknown_fields: bool,
) -> Result<Option<String>, JsonError> {
    let slot: FieldState<Option<String>> = deserialize_named_fields(
        value,
        ValuePointerRef::Origin,
        &names(&["doggo"]),
        Vec::new(),
        deny_unknown_fields,
        init,
    )?;
    Ok(slot.unwrap())
}

#[test]
fn option_dont_use_default_by_default() {
    assert_eq!(read_doggo(obj(vec![("doggo", Value::Null)]), FieldState::Missing, false).unwrap(), None);
    assert_eq!(
        read_doggo(obj(vec![("doggo", s("bork"))]), FieldState::Missing, false).unwrap(),
        Some("bork".to_string())
    );
    assert_eq!(
        read_doggo(obj(vec![]), FieldState::Missing, false).err().unwrap().message(),
        "Missing field `doggo`"
    );
}

#[test]
fn default_without_parameter() {
    let default = || FieldState::Present(None);
    assert_eq!(read_doggo(obj(vec![]), default(), false).unwrap(), None);
    assert_eq!(read_doggo(obj(vec![("doggo", Value::Null)]), default(), false).unwrap(), None);
    assert_eq!(
        read_doggo(obj(vec![("doggo", s("bork"))]), default(), false).unwrap(),
        Some("bork".to_string())
    );
}

#[test]
fn default_with_a_parameter() {
    let default = || FieldState::Present(Some("BORK".to_string()));
    assert_eq!(read_doggo(obj(vec![]), default(), false).unwrap(), Some("BORK".to_string()));
    assert_eq!(read_doggo(obj(vec![("doggo", Value::Null)]), default(), false).unwrap(), None);
    assert_eq!(
        read_doggo(obj(vec![("doggo", s("bork"))]), default(), false).unwrap(),
        Some("bork".to_string())
    );
}

#[test]
fn default_deny_unknown_fields() {
    let read = |value: Value| -> Result<String, JsonError> {
        let word: FieldState<String> = deserialize_named_fields(
            value,
            ValuePointerRef::Origin,
            &names(&["word"]),
            Vec::new(),
            true,
            FieldState::Missing,
        )?;
        Ok(word.unwrap())
    };
    assert_eq!(read(obj(vec![("word", s("doggo"))])).unwrap(), "doggo".to_string());
    assert_eq!(
        read(obj(vec![("word", s("doggo")), ("turbo", s("doggo"))])).err().unwrap().message(),
        "Unknown field `turbo`: expected one of `word`"
    );
}

/// `struct Struct { #[skip] doggo: Option<String> }`: no declared field, and
/// the skipped one holds `skipped`.
fn read_skipped(
    value: Value,
    skipped: Option<String>,
    deny_unknown_fields: bool,
) -> Result<Option<String>, JsonError> {
    let _: () = deserialize_named_fields(
        value,
        ValuePointerRef::Origin,
        &Vec::new(),
        Vec::new(),
        deny_unknown_fields,
        (),
    )?;
    Ok(skipped)
}

#[test]
fn skip() {
    assert_eq!(read_skipped(obj(vec![]), None, false).unwrap(), None);
    assert_eq!(read_skipped(obj(vec![("doggo", Value::Null)]), None, false).unwrap(), None);
    assert_eq!(read_skipped(obj(vec![("doggo", s("bork"))]), None, false).unwrap(), None);
}

#[test]
fn skip_and_deny_unknown_fields() {
    assert_eq!(read_skipped(obj(vec![]), None, true).unwrap(), None);
    assert_eq!(
        read_skipped(obj(vec![("doggo", Value::Null)]), None, true).err().unwrap().message(),
        "Unknown field `doggo`: expected one of "
    );
    assert_eq!(
        read_skipped(obj(vec![("doggo", s("bork"))]), None, true).err().unwrap().message(),
        "Unknown field `doggo`: expected one of "
    );
}

#[test]
fn skip_and_default() {
    let bork = || Some("bork".to_string());
    assert_eq!(read_skipped(obj(vec![]), bork(), false).unwrap(), bork());
    assert_eq!(read_skipped(obj(vec![("doggo", Value::Null)]), bork(), false).unwrap(), bork());
    assert_eq!(read_skipped(obj(vec![("doggo", s("bork"))]), bork(), false).unwrap(), bork());
}

#[test]
fn skip_and_default_and_deny_unknown_fields() {
    let bork = || Some("bork".to_string());
    assert_eq!(read_skipped(obj(vec![]), bork(), true).unwrap(), bork());
    assert_eq!(
        read_skipped(obj(vec![("doggo", Value::Null)]), bork(), true).err().unwrap().message(),
        "Unknown field `doggo`: expected one of "
    );
    assert_eq!(
        read_skipped(obj(vec![("doggo", s("bork"))]), bork(), true).err().unwrap().message(),
        "Unknown field `doggo`: expected one of "
    );
}

/// The field `key` of a struct of integer fields, read as a `T`.
fn field<T: Deserr<JsonError>>(key: &str, value: Value) -> Result<T, JsonError> {
    let origin = ValuePointerRef::Origin;
    T::deserialize_from_value(value, origin.push_key(key))
}

fn message<T: Deserr<JsonError> + std::fmt::Debug>(key: &str, value: Value) -> String {
    field::<T>(key, value).err().unwrap().message()
}

fn negative_one_refused(key: &str) -> String {
    format!(
        "Invalid value type at `.{key}`: expected a positive integer, but found a negative integer: `-1`"
    )
}

#[test]
fn number_range_error_messages_positive_integer() {
    for i in u8::MIN..=u8::MAX {
        assert_eq!(field::<u8>("u8", Value::Integer(i as u64)).unwrap(), i);
    }
    assert_eq!(message::<u8>("u8", Value::Integer(256)), "Invalid value at `.u8`: value: `256` is too large to be deserialized, maximum value authorized is `255`");
    assert_eq!(message::<u8>("u8", Value::NegativeInteger(-1)), negative_one_refused("u8"));
    assert_eq!(message::<u16>("u16", Value::Integer(65536)), "Invalid value at `.u16`: value: `65536` is too large to be deserialized, maximum value authorized is `65535`");
    assert_eq!(message::<u16>("u16", Value::NegativeInteger(-1)), negative_one_refused("u16"));
    assert_eq!(message::<u32>("u32", Value::Integer(4294967296)), "Invalid value at `.u32`: value: `4294967296` is too large to be deserialized, maximum value authorized is `4294967295`");
    assert_eq!(message::<u32>("u32", Value::NegativeInteger(-1)), negative_one_refused("u32"));
    assert_eq!(message::<u64>("u64", Value::NegativeInteger(-1)), negative_one_refused("u64"));
    assert_eq!(message::<usize>("usize", Value::NegativeInteger(-1)), negative_one_refused("usize"));
}

#[test]
fn number_range_error_messages_negative_integer() {
    for i in i8::MIN..=i8::MAX {
        let v = if i >= 0 { Value::Integer(i as u64) } else { Value::NegativeInteger(i as i64) };
        assert_eq!(field::<i8>("i8", v).unwrap(), i);
    }
    assert_eq!(message::<i8>("i8", Value::Integer(128)), "Invalid value at `.i8`: value: `128` is too large to be deserialized, maximum value authorized is `127`");
    assert_eq!(message::<i8>("i8", Value::NegativeInteger(-129)), "Invalid value at `.i8`: value: `-129` is too small to be deserialized, minimum value authorized is `-128`");
    assert_eq!(message::<i16>("i16", Value::Integer(32768)), "Invalid value at `.i16`: value: `32768` is too large to be deserialized, maximum value authorized is `32767`");
    assert_eq!(message::<i16>("i16", Value::NegativeInteger(-32769)), "Invalid value at `.i16`: value: `-32769` is too small to be deserialized, minimum value authorized is `-32768`");
    assert_eq!(message::<i32>("i32", Value::Integer(2147483648)), "Invalid value at `.i32`: value: `2147483648` is too large to be deserialized, maximum value authorized is `2147483647`");
    assert_eq!(message::<i32>("i32", Value::NegativeInteger(-2147483649)), "Invalid value at `.i32`: value: `-2147483649` is too small to be deserialized, minimum value authorized is `-2147483648`");
}

/// A struct of three string fields, read with the declared keys `keys`.
fn read_three(value: Value, keys: &Vec<String>) -> Result<(String, String, String), JsonError> {
    let (a, b, c): (FieldState<String>, FieldState<String>, FieldState<String>) =
        deserialize_named_fields(
            value,
            ValuePointerRef::Origin,
            keys,
            Vec::new(),
            false,
            (FieldState::Missing, FieldState::Missing, FieldState::Missing),
        )?;
    Ok((a.unwrap(), b.unwrap(), c.unwrap()))
}

#[test]
fn rename_all_camel_case() {
    let camel = |f: &str, rename: Option<&str>| {
        key_name_for_ident(f.to_string(), Some(&RenameAll::CamelCase), rename)
    };
    let keys = vec![
        camel("word", None),
        camel("multiple_words", None),
        camel("renamed_field", Some("renamed_field")),
    ];
    let ok = read_three(
        obj(vec![("word", s("doggo")), ("multipleWords", s("good doggo")), ("renamed_field", s("bork"))]),
        &keys,
    );
    assert_eq!(
        ok.unwrap(),
        ("doggo".to_string(), "good doggo".to_string(), "bork".to_string())
    );
    let word = read_three(
        obj(vec![("Word", s("doggo")), ("multipleWords", s("good doggo")), ("renamed_field", s("bork"))]),
        &keys,
    );
    assert_eq!(word.err().unwrap().message(), "Missing field `word`");
    let multiple = read_three(
        obj(vec![("word", s("doggo")), ("multiple_words", s("good doggo")), ("renamed_field", s("bork"))]),
        &keys,
    );
    assert_eq!(multiple.err().unwrap().message(), "Missing field `multipleWords`");
    let renamed = read_three(
        obj(vec![("word", s("doggo")), ("multipleWords", s("good doggo")), ("renamedField", s("bork"))]),
        &keys,
    );
    assert_eq!(renamed.err().unwrap().message(), "Missing field `renamed_field`");
}

#[test]
fn rename_all_lowercase() {
    let lower = |f: &str, rename: Option<&str>| {
        key_name_for_ident(f.to_string(), Some(&RenameAll::LowerCase), rename)
    };
    let keys = vec![lower("word", None), lower("SCREAMING_WORD", None), lower("smol", Some("BORK"))];
    let ok = read_three(
        obj(vec![("word", s("doggo")), ("screaming_word", s("good doggo")), ("BORK", s("bork"))]),
        &keys,
    );
    assert_eq!(
        ok.unwrap(),
        ("doggo".to_string(), "good doggo".to_string(), "bork".to_string())
    );
    let word = read_three(
        obj(vec![("Word", s("doggo")), ("screaming_word", s("good doggo")), ("BORK", s("bork"))]),
        &keys,
    );
    assert_eq!(word.err().unwrap().message(), "Missing field `word`");
    let screaming = read_three(
        obj(vec![("word", s("doggo")), ("SCREAMING_WORD", s("good doggo")), ("BORK", s("bork"))]),
        &keys,
    );
    assert_eq!(screaming.err().unwrap().message(), "Missing field `screaming_word`");
    let smol = read_three(
        obj(vec![("word", s("doggo")), ("screaming_word", s("good doggo")), ("smol", s("bork"))]),
        &keys,
    );
    assert_eq!(smol.err().unwrap().message(), "Missing field `BORK`");
}

#[test]
fn missing_field_error() {
    let custom = JsonError::new(
        "I really need the query field, please give it to me uwu".to_string(),
    );
    let read = |value: Value, custom: Option<JsonError>| -> Result<(String, String), JsonError> {
        let (doggo, catto): (FieldState<String>, FieldState<String>) = deserialize_named_fields(
            value,
            ValuePointerRef::Origin,
            &names(&["doggo", "catto"]),
            vec![None, custom],
            false,
            (FieldState::Missing, FieldState::Missing),
        )?;
        Ok((doggo.unwrap(), catto.unwrap()))
    };
    let ok = read(obj(vec![("doggo", s("bork")), ("catto", s("jorts"))]), Some(custom.clone()));
    assert_eq!(ok.unwrap(), ("bork".to_string(), "jorts".to_string()));
    let no_doggo = read(obj(vec![("catto", s("jorts"))]), Some(custom.clone()));
    assert_eq!(no_doggo.err().unwrap().message(), "Missing field `doggo`");
    let no_catto = read(obj(vec![("doggo", s("bork"))]), Some(custom));
    assert_eq!(
        no_catto.err().unwrap().message(),
        "I really need the query field, please give it to me uwu"
    );
}

#[test]
fn validate() {
    let read = |value: Value| -> Result<(u64, u64), JsonError> {
        let (start, end): (FieldState<u64>, FieldState<u64>) = deserialize_named_fields(
            value,
            ValuePointerRef::Origin,
            &names(&["start", "end"]),
            Vec::new(),
            false,
            (FieldState::Missing, FieldState::Missing),
        )?;
        let range = (start.unwrap(), end.unwrap());
        let checked: Result<(u64, u64), JsonError> = if range.1 < range.0 {
            Err(JsonError::new(format!(
                "`end` (`{}`) should be greater than `start` (`{}`)",
                range.1, range.0
            )))
        } else {
            Ok(range)
        };
        deserr::fields::merge_validation(checked, ValuePointerRef::Origin)
    };
    assert_eq!(read(obj(vec![("start", Value::Integer(2)), ("end", Value::Integer(6))])).unwrap(), (2, 6));
    assert_eq!(
        read(obj(vec![("start", Value::Integer(6)), ("end", Value::Integer(2))])).err().unwrap().message(),
        "`end` (`2`) should be greater than `start` (`6`)"
    );
}
