use crate::fields::{find_key, key_index};
use crate::json::{backticked_list, push_backticked_list};
use crate::impls::{incorrect_kind, incorrect_kind_error, kinds1, unexpected, unexpected_error};
use crate::value::{entry_keys, PathStep, Value, ValueKind, ValuePointerRef};
use crate::{cf_content, strings_view, take_cf_content, DeserializeError, ErrorKind, ErrorKindView};
use vstd::prelude::*;
use vstd::string::StringExecFns;

verus! {

/// The first index at which a list of map entries holds the key `k`.
pub open spec fn entry_index(entries: Seq<(String, Value)>, k: Seq<char>) -> Option<int> {
    key_index(entry_keys(entries), k)
}

/// Where the key `k` stands among a list of map entries, if it does.
pub fn find_entry(entries: &Vec<(String, Value)>, k: &String) -> (r: Option<usize>)
    ensures
        match r {
            Some(i) => entry_index(entries@, k@) == Some(i as int),
            None => entry_index(entries@, k@) is None,
        },
{
    let ghost ks = entry_keys(entries@);
    let mut j: usize = 0;
    while j < entries.len()
        invariant
            j <= entries.len() == ks.len(),
            ks == entry_keys(entries@),
            crate::fields::key_index_below(ks, k@, j as nat) is None,
        decreases entries.len() - j,
    {
        if entries[j].0 == *k {
            assert(ks[j as int] == k@);
            proof {
                crate::fields::lemma_key_index_prefix(ks, k@, (j + 1) as nat, ks.len());
            }
            return Some(j);
        }
        j = j + 1;
    }
    None
}

/// The message for a tag that names no variant: the received tag, then the
/// accepted ones.
pub open spec fn incorrect_tag_msg(tag: Seq<char>, variants: Seq<Seq<char>>) -> Seq<char> {
    "Incorrect tag value `"@ + tag + "`: expected one of "@ + backticked_list(variants)
}

/// The outcome of reading the tag of an internally tagged enum: the index of
/// the variant that the tag names, with the rest of the map.
pub open spec fn spec_tag<E: DeserializeError>(
    value: Value,
    location: Seq<PathStep>,
    tag: Seq<char>,
    variants: Seq<Seq<char>>,
) -> Result<(int, Seq<(String, Value)>), E::V> {
    match value {
        Value::Object(entries) => match entry_index(entries@, tag) {
            None => Err(
                cf_content(
                    E::spec_error(None, ErrorKindView::MissingField { field: tag }, location),
                ),
            ),
            Some(j) => {
                let rest = entries@.remove(j);
                match entries@[j].1 {
                    Value::String(s) => match key_index(variants, s@) {
                        Some(i) => Ok((i, rest)),
                        None => Err(unexpected::<E>(incorrect_tag_msg(s@, variants), location)),
                    },
                    other => Err(
                        incorrect_kind::<E>(
                            other,
                            seq![ValueKind::String],
                            location.push(PathStep::Key(tag)),
                        ),
                    ),
                }
            },
        },
        _ => Err(incorrect_kind::<E>(value, seq![ValueKind::Object], location)),
    }
}

/// Read the tag of an internally tagged enum from the map `value`.
///
/// The entry whose key is `tag` is taken out of the map. Its value must be a
/// string equal to one of `variants`, compared case-sensitively. The result
/// is the index of that variant and the rest of the map, for the variant's
/// own fields.
pub fn deserialize_tag<E: DeserializeError>(
    value: Value,
    location: ValuePointerRef,
    tag: &String,
    variants: &Vec<String>,
) -> (r: Result<(usize, Vec<(String, Value)>), E>)
    ensures
        spec_tag::<E>(value, location.path(), tag@, strings_view(variants@)) == match r {
            Ok((i, rest)) => Ok::<(int, Seq<(String, Value)>), E::V>((i as int, rest@)),
            Err(e) => Err::<(int, Seq<(String, Value)>), E::V>(e.deep_view()),
        },
{
    let mut entries = match value {
        Value::Object(entries) => entries,
        _ => {
            return Err(incorrect_kind_error(value, kinds1(ValueKind::Object), location));
        },
    };
    let j = match find_entry(&entries, tag) {
        Some(j) => j,
        None => {
            let field = tag.clone();
            return Err(
                take_cf_content(E::error(None, ErrorKind::MissingField { field }, location)),
            );
        },
    };
    proof {
        crate::fields::lemma_key_index_below_bounds(entry_keys(entries@), tag@, entries@.len());
    }
    let (_, tag_value) = entries.remove(j);
    match tag_value {
        Value::String(s) => match find_key(variants, &s) {
            Some(i) => Ok((i, entries)),
            None => {
                let mut msg = String::from_str("Incorrect tag value `");
                msg.append(s.as_str());
                msg.append("`: expected one of ");
                push_backticked_list(&mut msg, variants);
                Err(unexpected_error(msg, location))
            },
        },
        _ => {
            let at = location.push_key(tag.as_str());
            Err(incorrect_kind_error(tag_value, kinds1(ValueKind::String), at))
        },
    }
}

/// The outcome of reading a bare string that names one of `variants`.
pub open spec fn spec_unit_variant<E: DeserializeError>(
    value: Value,
    location: Seq<PathStep>,
    variants: Seq<Seq<char>>,
) -> Result<int, E::V> {
    match value {
        Value::String(s) => match key_index(variants, s@) {
            Some(i) => Ok(i),
            None => Err(
                cf_content(
                    E::spec_error(
                        None,
                        ErrorKindView::UnknownValue { value: s@, accepted: variants },
                        location,
                    ),
                ),
            ),
        },
        _ => Err(incorrect_kind::<E>(value, seq![ValueKind::String], location)),
    }
}

/// Read an enum whose variants are all units from a bare string equal to
/// one of `variants`; the result is the index of that variant.
pub fn deserialize_unit_variant<E: DeserializeError>(
    value: Value,
    location: ValuePointerRef,
    variants: &Vec<String>,
) -> (r: Result<usize, E>)
    ensures
        spec_unit_variant::<E>(value, location.path(), strings_view(variants@)) == match r {
            Ok(i) => Ok::<int, E::V>(i as int),
            Err(e) => Err::<int, E::V>(e.deep_view()),
        },
{
    match value {
        Value::String(s) => match find_key(variants, &s) {
            Some(i) => Ok(i),
            None => {
                let accepted = crate::fields::copy_strings(variants);
                Err(
                    take_cf_content(
                        E::error(None, ErrorKind::UnknownValue { value: s, accepted }, location),
                    ),
                )
            },
        },
        _ => Err(incorrect_kind_error(value, kinds1(ValueKind::String), location)),
    }
}

} // verus!
