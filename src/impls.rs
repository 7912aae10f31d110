use crate::text::{decimal, push_decimal, push_signed_decimal, signed_decimal};
use crate::value::{kind_of, PathStep, Value, ValueKind, ValuePointerRef};
use crate::{cf_view, outcome_view, MergeWithError, cf_content, take_cf_content, DeserializeError, Deserr, ErrorKind, ErrorKindView};
use std::ops::ControlFlow;
use vstd::prelude::*;
use vstd::string::{StrSliceExecFns, StringExecFns};

verus! {

/// The error for a value whose kind is not among `accepted`.
pub open spec fn incorrect_kind<E: DeserializeError>(
    actual: Value,
    accepted: Seq<ValueKind>,
    location: Seq<PathStep>,
) -> E::V {
    cf_content(
        E::spec_error(None, ErrorKindView::IncorrectValueKind { actual, accepted }, location),
    )
}

/// The error with a free-form message.
pub open spec fn unexpected<E: DeserializeError>(msg: Seq<char>, location: Seq<PathStep>) -> E::V {
    cf_content(E::spec_error(None, ErrorKindView::Unexpected { msg }, location))
}

/// A list of one value kind.
pub fn kinds1(a: ValueKind) -> (r: Vec<ValueKind>)
    ensures
        r@ == seq![a],
{
    let r = vec![a];
    assert(r@ == seq![a]);
    r
}

/// A list of two value kinds.
pub fn kinds2(a: ValueKind, b: ValueKind) -> (r: Vec<ValueKind>)
    ensures
        r@ == seq![a, b],
{
    let r = vec![a, b];
    assert(r@ == seq![a, b]);
    r
}

/// Build the error for a value whose kind is not among `accepted`.
pub fn incorrect_kind_error<E: DeserializeError>(
    actual: Value,
    accepted: Vec<ValueKind>,
    location: ValuePointerRef,
) -> (e: E)
    ensures
        e.deep_view() == incorrect_kind::<E>(actual, accepted@, location.path()),
{
    take_cf_content(
        E::error(None, ErrorKind::IncorrectValueKind { actual, accepted }, location),
    )
}

/// Build the error with a free-form message.
pub fn unexpected_error<E: DeserializeError>(msg: String, location: ValuePointerRef) -> (e: E)
    ensures
        e.deep_view() == unexpected::<E>(msg@, location.path()),
{
    take_cf_content(E::error(None, ErrorKind::Unexpected { msg }, location))
}

pub open spec fn too_large_msg(x: nat, max: nat) -> Seq<char> {
    "value: `"@ + decimal(x) + "` is too large to be deserialized, maximum value authorized is `"@
        + decimal(max) + "`"@
}

pub open spec fn too_small_msg(x: int, min: int) -> Seq<char> {
    "value: `"@ + signed_decimal(x) + "` is too small to be deserialized, minimum value authorized is `"@
        + signed_decimal(min) + "`"@
}

fn too_large_message(x: u64, max: u64) -> (r: String)
    ensures
        r@ == too_large_msg(x as nat, max as nat),
{
    let mut m = String::from_str("value: `");
    push_decimal(&mut m, x);
    m.append("` is too large to be deserialized, maximum value authorized is `");
    push_decimal(&mut m, max);
    m.append("`");
    m
}

fn too_small_message(x: i64, min: i64) -> (r: String)
    ensures
        r@ == too_small_msg(x as int, min as int),
{
    let mut m = String::from_str("value: `");
    push_signed_decimal(&mut m, x);
    m.append("` is too small to be deserialized, minimum value authorized is `");
    push_signed_decimal(&mut m, min);
    m.append("`");
    m
}

/// The outcome of reading an unsigned integer no greater than `max`.
pub open spec fn spec_unsigned<E: DeserializeError>(
    value: Value,
    location: Seq<PathStep>,
    max: u64,
) -> Result<u64, E::V> {
    match value {
        Value::Integer(x) => if x <= max {
            Ok(x)
        } else {
            Err(unexpected::<E>(too_large_msg(x as nat, max as nat), location))
        },
        _ => Err(incorrect_kind::<E>(value, seq![ValueKind::Integer], location)),
    }
}

/// Read an unsigned integer no greater than `max`.
pub fn deserialize_unsigned<E: DeserializeError>(
    value: Value,
    location: ValuePointerRef,
    max: u64,
) -> (r: Result<u64, E>)
    ensures
        outcome_view(r) == spec_unsigned::<E>(value, location.path(), max),
{
    match value {
        Value::Integer(x) => {
            if x <= max {
                Ok(x)
            } else {
                Err(unexpected_error(too_large_message(x, max), location))
            }
        },
        _ => Err(incorrect_kind_error(value, kinds1(ValueKind::Integer), location)),
    }
}

/// The outcome of reading a signed integer within `min..=max`.
pub open spec fn spec_signed<E: DeserializeError>(
    value: Value,
    location: Seq<PathStep>,
    min: i64,
    max: i64,
) -> Result<i64, E::V> {
    match value {
        Value::Integer(x) => if x <= max {
            Ok(x as i64)
        } else {
            Err(unexpected::<E>(too_large_msg(x as nat, max as nat), location))
        },
        Value::NegativeInteger(x) => if min <= x && x <= max {
            Ok(x)
        } else {
            Err(unexpected::<E>(too_small_msg(x as int, min as int), location))
        },
        _ => Err(
            incorrect_kind::<E>(value, seq![ValueKind::Integer, ValueKind::NegativeInteger], location),
        ),
    }
}

/// Read a signed integer within `min..=max`.
pub fn deserialize_signed<E: DeserializeError>(
    value: Value,
    location: ValuePointerRef,
    min: i64,
    max: i64,
) -> (r: Result<i64, E>)
    requires
        min <= 0 <= max,
    ensures
        outcome_view(r) == spec_signed::<E>(value, location.path(), min, max),
{
    match value {
        Value::Integer(x) => {
            if x <= max as u64 {
                Ok(x as i64)
            } else {
                Err(unexpected_error(too_large_message(x, max as u64), location))
            }
        },
        Value::NegativeInteger(x) => {
            if min <= x && x <= max {
                Ok(x)
            } else {
                Err(unexpected_error(too_small_message(x, min), location))
            }
        },
        _ => Err(incorrect_kind_error(value, kinds2(ValueKind::Integer, ValueKind::NegativeInteger), location),
        ),
    }
}

impl<E: DeserializeError> Deserr<E> for () {
    open spec fn spec_deserialize(value: Value, location: Seq<PathStep>) -> Result<(), E::V> {
        match value {
            Value::Null => Ok(()),
            _ => Err(incorrect_kind::<E>(value, seq![ValueKind::Null], location)),
        }
    }

    fn deserialize_from_value(value: Value, location: ValuePointerRef) -> (r: Result<(), E>) {
        match value {
            Value::Null => Ok(()),
            _ => {
                Err(incorrect_kind_error(value, kinds1(ValueKind::Null), location))
            },
        }
    }
}

impl<E: DeserializeError> Deserr<E> for bool {
    open spec fn spec_deserialize(value: Value, location: Seq<PathStep>) -> Result<bool, E::V> {
        match value {
            Value::Boolean(b) => Ok(b),
            _ => Err(incorrect_kind::<E>(value, seq![ValueKind::Boolean], location)),
        }
    }

    fn deserialize_from_value(value: Value, location: ValuePointerRef) -> (r: Result<bool, E>) {
        match value {
            Value::Boolean(b) => Ok(b),
            _ => Err(incorrect_kind_error(value, kinds1(ValueKind::Boolean), location)),
        }
    }
}

impl<E: DeserializeError> Deserr<E> for String {
    open spec fn spec_deserialize(value: Value, location: Seq<PathStep>) -> Result<Seq<char>, E::V> {
        match value {
            Value::String(s) => Ok(s@),
            _ => Err(incorrect_kind::<E>(value, seq![ValueKind::String], location)),
        }
    }

    fn deserialize_from_value(value: Value, location: ValuePointerRef) -> (r: Result<String, E>) {
        match value {
            Value::String(s) => Ok(s),
            _ => Err(incorrect_kind_error(value, kinds1(ValueKind::String), location)),
        }
    }
}

pub open spec fn char_count_msg(s: Seq<char>) -> Seq<char> {
    if s.len() == 0 {
        "expected a string of one character, but found an empty string"@
    } else {
        "expected a string of one character, but found the following string of "@ + decimal(
            s.len(),
        ) + " characters: `"@ + s + "`"@
    }
}

impl<E: DeserializeError> Deserr<E> for char {
    open spec fn spec_deserialize(value: Value, location: Seq<PathStep>) -> Result<char, E::V> {
        match value {
            Value::String(s) => if s@.len() == 1 {
                Ok(s@[0])
            } else {
                Err(unexpected::<E>(char_count_msg(s@), location))
            },
            _ => Err(incorrect_kind::<E>(value, seq![ValueKind::String], location)),
        }
    }

    fn deserialize_from_value(value: Value, location: ValuePointerRef) -> (r: Result<char, E>) {
        match value {
            Value::String(s) => {
                let n = s.as_str().unicode_len();
                if n == 1 {
                    Ok(s.as_str().get_char(0))
                } else if n == 0 {
                    let msg = String::from_str(
                        "expected a string of one character, but found an empty string",
                    );
                    Err(unexpected_error(msg, location))
                } else {
                    let mut msg = String::from_str(
                        "expected a string of one character, but found the following string of ",
                    );
                    push_decimal(&mut msg, n as u64);
                    msg.append(" characters: `");
                    msg.append(s.as_str());
                    msg.append("`");
                    Err(unexpected_error(msg, location))
                }
            },
            _ => Err(incorrect_kind_error(value, kinds1(ValueKind::String), location)),
        }
    }
}

impl<E: DeserializeError> Deserr<E> for u8 {
    open spec fn spec_deserialize(value: Value, location: Seq<PathStep>) -> Result<u8, E::V> {
        match spec_unsigned::<E>(value, location, u8::MAX as u64) {
            Ok(x) => Ok(x as u8),
            Err(e) => Err(e),
        }
    }

    fn deserialize_from_value(value: Value, location: ValuePointerRef) -> (r: Result<u8, E>) {
        match deserialize_unsigned::<E>(value, location, u8::MAX as u64) {
            Ok(x) => Ok(x as u8),
            Err(e) => Err(e),
        }
    }
}

impl<E: DeserializeError> Deserr<E> for u16 {
    open spec fn spec_deserialize(value: Value, location: Seq<PathStep>) -> Result<u16, E::V> {
        match spec_unsigned::<E>(value, location, u16::MAX as u64) {
            Ok(x) => Ok(x as u16),
            Err(e) => Err(e),
        }
    }

    fn deserialize_from_value(value: Value, location: ValuePointerRef) -> (r: Result<u16, E>) {
        match deserialize_unsigned::<E>(value, location, u16::MAX as u64) {
            Ok(x) => Ok(x as u16),
            Err(e) => Err(e),
        }
    }
}

impl<E: DeserializeError> Deserr<E> for u32 {
    open spec fn spec_deserialize(value: Value, location: Seq<PathStep>) -> Result<u32, E::V> {
        match spec_unsigned::<E>(value, location, u32::MAX as u64) {
            Ok(x) => Ok(x as u32),
            Err(e) => Err(e),
        }
    }

    fn deserialize_from_value(value: Value, location: ValuePointerRef) -> (r: Result<u32, E>) {
        match deserialize_unsigned::<E>(value, location, u32::MAX as u64) {
            Ok(x) => Ok(x as u32),
            Err(e) => Err(e),
        }
    }
}

impl<E: DeserializeError> Deserr<E> for u64 {
    open spec fn spec_deserialize(value: Value, location: Seq<PathStep>) -> Result<u64, E::V> {
        match spec_unsigned::<E>(value, location, u64::MAX as u64) {
            Ok(x) => Ok(x as u64),
            Err(e) => Err(e),
        }
    }

    fn deserialize_from_value(value: Value, location: ValuePointerRef) -> (r: Result<u64, E>) {
        match deserialize_unsigned::<E>(value, location, u64::MAX as u64) {
            Ok(x) => Ok(x as u64),
            Err(e) => Err(e),
        }
    }
}

impl<E: DeserializeError> Deserr<E> for usize {
    open spec fn spec_deserialize(value: Value, location: Seq<PathStep>) -> Result<usize, E::V> {
        match spec_unsigned::<E>(value, location, usize::MAX as u64) {
            Ok(x) => Ok(x as usize),
            Err(e) => Err(e),
        }
    }

    fn deserialize_from_value(value: Value, location: ValuePointerRef) -> (r: Result<usize, E>) {
        match deserialize_unsigned::<E>(value, location, usize::MAX as u64) {
            Ok(x) => Ok(x as usize),
            Err(e) => Err(e),
        }
    }
}

impl<E: DeserializeError> Deserr<E> for i8 {
    open spec fn spec_deserialize(value: Value, location: Seq<PathStep>) -> Result<i8, E::V> {
        match spec_signed::<E>(value, location, i8::MIN as i64, i8::MAX as i64) {
            Ok(x) => Ok(x as i8),
            Err(e) => Err(e),
        }
    }

    fn deserialize_from_value(value: Value, location: ValuePointerRef) -> (r: Result<i8, E>) {
        match deserialize_signed::<E>(value, location, i8::MIN as i64, i8::MAX as i64) {
            Ok(x) => Ok(x as i8),
            Err(e) => Err(e),
        }
    }
}

impl<E: DeserializeError> Deserr<E> for i16 {
    open spec fn spec_deserialize(value: Value, location: Seq<PathStep>) -> Result<i16, E::V> {
        match spec_signed::<E>(value, location, i16::MIN as i64, i16::MAX as i64) {
            Ok(x) => Ok(x as i16),
            Err(e) => Err(e),
        }
    }

    fn deserialize_from_value(value: Value, location: ValuePointerRef) -> (r: Result<i16, E>) {
        match deserialize_signed::<E>(value, location, i16::MIN as i64, i16::MAX as i64) {
            Ok(x) => Ok(x as i16),
            Err(e) => Err(e),
        }
    }
}

impl<E: DeserializeError> Deserr<E> for i32 {
    open spec fn spec_deserialize(value: Value, location: Seq<PathStep>) -> Result<i32, E::V> {
        match spec_signed::<E>(value, location, i32::MIN as i64, i32::MAX as i64) {
            Ok(x) => Ok(x as i32),
            Err(e) => Err(e),
        }
    }

    fn deserialize_from_value(value: Value, location: ValuePointerRef) -> (r: Result<i32, E>) {
        match deserialize_signed::<E>(value, location, i32::MIN as i64, i32::MAX as i64) {
            Ok(x) => Ok(x as i32),
            Err(e) => Err(e),
        }
    }
}

impl<E: DeserializeError> Deserr<E> for i64 {
    open spec fn spec_deserialize(value: Value, location: Seq<PathStep>) -> Result<i64, E::V> {
        match spec_signed::<E>(value, location, i64::MIN as i64, i64::MAX as i64) {
            Ok(x) => Ok(x as i64),
            Err(e) => Err(e),
        }
    }

    fn deserialize_from_value(value: Value, location: ValuePointerRef) -> (r: Result<i64, E>) {
        match deserialize_signed::<E>(value, location, i64::MIN as i64, i64::MAX as i64) {
            Ok(x) => Ok(x as i64),
            Err(e) => Err(e),
        }
    }
}

impl<E: DeserializeError> Deserr<E> for isize {
    open spec fn spec_deserialize(value: Value, location: Seq<PathStep>) -> Result<isize, E::V> {
        match spec_signed::<E>(value, location, isize::MIN as i64, isize::MAX as i64) {
            Ok(x) => Ok(x as isize),
            Err(e) => Err(e),
        }
    }

    fn deserialize_from_value(value: Value, location: ValuePointerRef) -> (r: Result<isize, E>) {
        match deserialize_signed::<E>(value, location, isize::MIN as i64, isize::MAX as i64) {
            Ok(x) => Ok(x as isize),
            Err(e) => Err(e),
        }
    }
}

impl<E: DeserializeError> Deserr<E> for u128 {
    open spec fn spec_deserialize(value: Value, location: Seq<PathStep>) -> Result<u128, E::V> {
        match value {
            Value::Integer(x) => Ok(x as u128),
            _ => Err(incorrect_kind::<E>(value, seq![ValueKind::Integer], location)),
        }
    }

    fn deserialize_from_value(value: Value, location: ValuePointerRef) -> (r: Result<u128, E>) {
        match value {
            Value::Integer(x) => Ok(x as u128),
            _ => Err(incorrect_kind_error(value, kinds1(ValueKind::Integer), location)),
        }
    }
}

impl<E: DeserializeError> Deserr<E> for i128 {
    open spec fn spec_deserialize(value: Value, location: Seq<PathStep>) -> Result<i128, E::V> {
        match value {
            Value::Integer(x) => Ok(x as i128),
            Value::NegativeInteger(x) => Ok(x as i128),
            _ => Err(
                incorrect_kind::<E>(value, seq![ValueKind::Integer, ValueKind::NegativeInteger], location),
            ),
        }
    }

    fn deserialize_from_value(value: Value, location: ValuePointerRef) -> (r: Result<i128, E>) {
        match value {
            Value::Integer(x) => Ok(x as i128),
            Value::NegativeInteger(x) => Ok(x as i128),
            _ => Err(incorrect_kind_error(value, kinds2(ValueKind::Integer, ValueKind::NegativeInteger), location),
            ),
        }
    }
}


/// Reverse a list.
pub fn reversed<T>(v: Vec<T>) -> (r: Vec<T>)
    ensures
        r.len() == v.len(),
        forall|i: int| 0 <= i < r.len() ==> r@[i] == v@[v.len() - 1 - i],
{
    let ghost orig = v@;
    let mut v = v;
    let mut r: Vec<T> = Vec::new();
    while v.len() > 0
        invariant
            v.len() + r.len() == orig.len(),
            v@ == orig.subrange(0, v.len() as int),
            forall|i: int| 0 <= i < r.len() ==> r@[i] == orig[orig.len() - 1 - i],
        decreases v.len(),
    {
        let x = v.pop().unwrap();
        r.push(x);
    }
    r
}

/// The state of a pass over the elements of a sequence: either stopped
/// with a final error, or going on with the views of the elements read so far
/// and the error gathered so far.
pub open spec fn seq_pass<T: Deserr<E>, E: DeserializeError>(
    items: Seq<Value>,
    location: Seq<PathStep>,
    n: nat,
) -> ControlFlow<E::V, (Seq<T::V>, Option<E::V>)>
    decreases n,
{
    if n == 0 {
        ControlFlow::Continue((Seq::empty(), None))
    } else {
        match seq_pass::<T, E>(items, location, (n - 1) as nat) {
            ControlFlow::Break(e) => ControlFlow::Break(e),
            ControlFlow::Continue((vals, err)) => {
                let at = location.push(PathStep::Index((n - 1) as nat));
                match T::spec_deserialize(items[n - 1], at) {
                    Ok(x) => ControlFlow::Continue((vals.push(x), err)),
                    Err(e) => match E::spec_merge(err, e, at) {
                        ControlFlow::Continue(acc) => ControlFlow::Continue((vals, Some(acc))),
                        ControlFlow::Break(fin) => ControlFlow::Break(fin),
                    },
                }
            },
        }
    }
}

/// Once a pass over a sequence has stopped, it stays stopped with the same
/// error.
pub proof fn lemma_seq_pass_stays_stopped<T: Deserr<E>, E: DeserializeError>(
    items: Seq<Value>,
    location: Seq<PathStep>,
    k: nat,
    n: nat,
)
    requires
        k <= n,
        seq_pass::<T, E>(items, location, k) is Break,
    ensures
        seq_pass::<T, E>(items, location, n) == seq_pass::<T, E>(items, location, k),
    decreases n - k,
{
    if k < n {
        lemma_seq_pass_stays_stopped::<T, E>(items, location, k, (n - 1) as nat);
    }
}

/// The outcome of deserializing every element of `items`, in order.
pub open spec fn spec_items<T: Deserr<E>, E: DeserializeError>(
    items: Seq<Value>,
    location: Seq<PathStep>,
) -> Result<Seq<T::V>, E::V> {
    match seq_pass::<T, E>(items, location, items.len()) {
        ControlFlow::Break(e) => Err(e),
        ControlFlow::Continue((vals, None)) => Ok(vals),
        ControlFlow::Continue((_, Some(e))) => Err(e),
    }
}

/// Deserialize every element of `items` as a `T`, each at its index below
/// `location`, merging the errors of the elements that fail.
pub fn deserialize_items<T: Deserr<E>, E: DeserializeError>(
    items: Vec<Value>,
    location: ValuePointerRef,
) -> (r: Result<Vec<T>, E>)
    ensures
        outcome_view(r) == spec_items::<T, E>(items@, location.path()),
{
    let ghost orig = items@;
    let n = items.len();
    let mut rest = reversed(items);
    let mut out: Vec<T> = Vec::new();
    let mut error: Option<E> = None;
    let mut index: usize = 0;
    assert(out.deep_view() =~= Seq::<T::V>::empty());
    while index < n
        invariant
            index <= n == orig.len(),
            orig == items@,
            rest.len() == n - index,
            forall|j: int| 0 <= j < rest.len() ==> rest@[j] == orig[n - 1 - j],
            seq_pass::<T, E>(orig, location.path(), index as nat) == ControlFlow::<
                E::V,
                (Seq<T::V>, Option<E::V>),
            >::Continue((out.deep_view(), error.deep_view())),
        decreases n - index,
    {
        let item = rest.pop().unwrap();
        assert(item == orig[index as int]);
        let at = location.push_index(index);
        match T::deserialize_from_value(item, at) {
            Ok(x) => {
                let ghost before = out.deep_view();
                out.push(x);
                assert(out.deep_view() =~= before.push(x.deep_view()));
            },
            Err(e) => {
                match E::merge(error, e, at) {
                    ControlFlow::Continue(acc) => {
                        error = Some(acc);
                    },
                    ControlFlow::Break(fin) => {
                        proof {
                            lemma_seq_pass_stays_stopped::<T, E>(
                                orig,
                                location.path(),
                                (index + 1) as nat,
                                n as nat,
                            );
                        }
                        return Err(fin);
                    },
                }
            },
        }
        index = index + 1;
    }
    match error {
        Some(e) => Err(e),
        None => Ok(out),
    }
}

impl<T: Deserr<E>, E: DeserializeError> Deserr<E> for Vec<T> {
    open spec fn spec_deserialize(value: Value, location: Seq<PathStep>) -> Result<Seq<T::V>, E::V> {
        match value {
            Value::Sequence(items) => spec_items::<T, E>(items@, location),
            _ => Err(incorrect_kind::<E>(value, seq![ValueKind::Sequence], location)),
        }
    }

    fn deserialize_from_value(value: Value, location: ValuePointerRef) -> (r: Result<Vec<T>, E>) {
        match value {
            Value::Sequence(items) => deserialize_items(items, location),
            _ => Err(incorrect_kind_error(value, kinds1(ValueKind::Sequence), location)),
        }
    }
}

impl<T: Deserr<E>, E: DeserializeError> Deserr<E> for Option<T> {
    open spec fn spec_deserialize(value: Value, location: Seq<PathStep>) -> Result<Option<T::V>, E::V> {
        match value {
            Value::Null => Ok(None),
            _ => match T::spec_deserialize(value, location) {
                Ok(x) => Ok(Some(x)),
                Err(e) => Err(e),
            },
        }
    }

    fn deserialize_from_value(value: Value, location: ValuePointerRef) -> (r: Result<Option<T>, E>) {
        match value {
            Value::Null => Ok(None),
            _ => match T::deserialize_from_value(value, location) {
                Ok(x) => Ok(Some(x)),
                Err(e) => Err(e),
            },
        }
    }
}

impl<T: Deserr<E>, E: DeserializeError> Deserr<E> for Box<T> {
    open spec fn spec_deserialize(value: Value, location: Seq<PathStep>) -> Result<T::V, E::V> {
        T::spec_deserialize(value, location)
    }

    fn deserialize_from_value(value: Value, location: ValuePointerRef) -> (r: Result<Box<T>, E>) {
        match T::deserialize_from_value(value, location) {
            Ok(x) => Ok(Box::new(x)),
            Err(e) => Err(e),
        }
    }
}


/// Fold the outcome `r` of one part, read at `at`, into the error gathered
/// so far: unchanged on success, merged on failure.
pub open spec fn merge_into<X, E: DeserializeError>(
    err: Option<E::V>,
    r: Result<X, E::V>,
    at: Seq<PathStep>,
) -> ControlFlow<E::V, Option<E::V>> {
    match r {
        Ok(_) => ControlFlow::Continue(err),
        Err(e) => match E::spec_merge(err, e, at) {
            ControlFlow::Continue(acc) => ControlFlow::Continue(Some(acc)),
            ControlFlow::Break(fin) => ControlFlow::Break(fin),
        },
    }
}

/// Fold the outcome `r` of one part into the error gathered so far, handing
/// back the part's value when it succeeded.
pub fn record_part<X: DeepView, E: DeserializeError>(
    err: Option<E>,
    r: Result<X, E>,
    at: ValuePointerRef,
) -> (out: ControlFlow<E, (Option<E>, Option<X>)>)
    ensures
        match out {
            ControlFlow::Break(fin) => merge_into::<X::V, E>(err.deep_view(), outcome_view(r), at.path())
                == ControlFlow::<E::V, Option<E::V>>::Break(fin.deep_view()),
            ControlFlow::Continue((acc, x)) => {
                &&& merge_into::<X::V, E>(err.deep_view(), outcome_view(r), at.path())
                    == ControlFlow::<E::V, Option<E::V>>::Continue(acc.deep_view())
                &&& x == match r {
                    Ok(v) => Some(v),
                    Err(_) => None::<X>,
                }
            },
        },
{
    match r {
        Ok(v) => ControlFlow::Continue((err, Some(v))),
        Err(e) => match E::merge(err, e, at) {
            ControlFlow::Continue(acc) => ControlFlow::Continue((Some(acc), None)),
            ControlFlow::Break(fin) => ControlFlow::Break(fin),
        },
    }
}

pub open spec fn arity_msg(n: nat) -> Seq<char> {
    "the sequence should have exactly "@ + decimal(n) + " elements"@
}

fn arity_message(n: u64) -> (r: String)
    ensures
        r@ == arity_msg(n as nat),
{
    let mut m = String::from_str("the sequence should have exactly ");
    push_decimal(&mut m, n);
    m.append(" elements");
    m
}

impl<A: Deserr<E>, B: Deserr<E>, E: DeserializeError> Deserr<E> for (A, B) {
    open spec fn spec_deserialize(value: Value, location: Seq<PathStep>) -> Result<(A::V, B::V), E::V> {
        match value {
            Value::Sequence(items) => if items@.len() != 2 {
                Err(unexpected::<E>(arity_msg(2), location))
            } else {
                let at0 = location.push(PathStep::Index(0));
                let at1 = location.push(PathStep::Index(1));
                let ra = A::spec_deserialize(items@[0], at0);
                let rb = B::spec_deserialize(items@[1], at1);
                match merge_into::<A::V, E>(None, ra, at0) {
                    ControlFlow::Break(fin) => Err(fin),
                    ControlFlow::Continue(e1) => match merge_into::<B::V, E>(e1, rb, at1) {
                        ControlFlow::Break(fin) => Err(fin),
                        ControlFlow::Continue(Some(e)) => Err(e),
                        ControlFlow::Continue(None) => Ok((ra->Ok_0, rb->Ok_0)),
                    },
                }
            },
            _ => Err(incorrect_kind::<E>(value, seq![ValueKind::Sequence], location)),
        }
    }

    fn deserialize_from_value(value: Value, location: ValuePointerRef) -> (r: Result<(A, B), E>) {
        match value {
            Value::Sequence(items) => {
                if items.len() != 2 {
                    return Err(unexpected_error(arity_message(2), location));
                }
                let ghost orig = items@;
                let mut items = items;
                let vb = items.pop().unwrap();
                let va = items.pop().unwrap();
                let at0 = location.push_index(0);
                let at1 = location.push_index(1);
                let ra = A::deserialize_from_value(va, at0);
                proof {
                    assert(outcome_view(ra) == A::spec_deserialize(orig[0], at0.path()));
                }
                let (e1, a) = match record_part(None, ra, at0) {
                    ControlFlow::Break(fin) => {
                        return Err(fin);
                    },
                    ControlFlow::Continue(c) => c,
                };
                let rb = B::deserialize_from_value(vb, at1);
                proof {
                    assert(outcome_view(rb) == B::spec_deserialize(orig[1], at1.path()));
                }
                match record_part(e1, rb, at1) {
                    ControlFlow::Break(fin) => Err(fin),
                    ControlFlow::Continue((Some(e), _)) => Err(e),
                    ControlFlow::Continue((None, b)) => Ok((a.unwrap(), b.unwrap())),
                }
            },
            _ => Err(incorrect_kind_error(value, kinds1(ValueKind::Sequence), location)),
        }
    }
}

impl<A: Deserr<E>, B: Deserr<E>, C: Deserr<E>, E: DeserializeError> Deserr<E> for (A, B, C) {
    open spec fn spec_deserialize(value: Value, location: Seq<PathStep>) -> Result<
        (A::V, B::V, C::V),
        E::V,
    > {
        match value {
            Value::Sequence(items) => if items@.len() != 3 {
                Err(unexpected::<E>(arity_msg(3), location))
            } else {
                let at0 = location.push(PathStep::Index(0));
                let at1 = location.push(PathStep::Index(1));
                let at2 = location.push(PathStep::Index(2));
                let ra = A::spec_deserialize(items@[0], at0);
                let rb = B::spec_deserialize(items@[1], at1);
                let rc = C::spec_deserialize(items@[2], at2);
                match merge_into::<A::V, E>(None, ra, at0) {
                    ControlFlow::Break(fin) => Err(fin),
                    ControlFlow::Continue(e1) => match merge_into::<B::V, E>(e1, rb, at1) {
                        ControlFlow::Break(fin) => Err(fin),
                        ControlFlow::Continue(e2) => match merge_into::<C::V, E>(e2, rc, at2) {
                            ControlFlow::Break(fin) => Err(fin),
                            ControlFlow::Continue(Some(e)) => Err(e),
                            ControlFlow::Continue(None) => Ok((ra->Ok_0, rb->Ok_0, rc->Ok_0)),
                        },
                    },
                }
            },
            _ => Err(incorrect_kind::<E>(value, seq![ValueKind::Sequence], location)),
        }
    }

    fn deserialize_from_value(value: Value, location: ValuePointerRef) -> (r: Result<(A, B, C), E>) {
        match value {
            Value::Sequence(items) => {
                if items.len() != 3 {
                    return Err(unexpected_error(arity_message(3), location));
                }
                let ghost orig = items@;
                let mut items = items;
                let vc = items.pop().unwrap();
                let vb = items.pop().unwrap();
                let va = items.pop().unwrap();
                let at0 = location.push_index(0);
                let at1 = location.push_index(1);
                let at2 = location.push_index(2);
                let ra = A::deserialize_from_value(va, at0);
                proof {
                    assert(outcome_view(ra) == A::spec_deserialize(orig[0], at0.path()));
                }
                let (e1, a) = match record_part(None, ra, at0) {
                    ControlFlow::Break(fin) => {
                        return Err(fin);
                    },
                    ControlFlow::Continue(c) => c,
                };
                let rb = B::deserialize_from_value(vb, at1);
                proof {
                    assert(outcome_view(rb) == B::spec_deserialize(orig[1], at1.path()));
                }
                let (e2, b) = match record_part(e1, rb, at1) {
                    ControlFlow::Break(fin) => {
                        return Err(fin);
                    },
                    ControlFlow::Continue(c) => c,
                };
                let rc = C::deserialize_from_value(vc, at2);
                proof {
                    assert(outcome_view(rc) == C::spec_deserialize(orig[2], at2.path()));
                }
                match record_part(e2, rc, at2) {
                    ControlFlow::Break(fin) => Err(fin),
                    ControlFlow::Continue((Some(e), _)) => Err(e),
                    ControlFlow::Continue((None, c)) => Ok((a.unwrap(), b.unwrap(), c.unwrap())),
                }
            },
            _ => Err(incorrect_kind_error(value, kinds1(ValueKind::Sequence), location)),
        }
    }
}


pub open spec fn length_msg(expected: nat, actual: nat) -> Seq<char> {
    "expected a sequence of "@ + decimal(expected) + " elements but instead found a sequence of "@
        + decimal(actual) + " elements"@
}

/// The outcome of reading a sequence of exactly `n` elements of `T`.
pub open spec fn spec_fixed_sequence<T: Deserr<E>, E: DeserializeError>(
    value: Value,
    location: Seq<PathStep>,
    n: nat,
) -> Result<Seq<T::V>, E::V> {
    match value {
        Value::Sequence(items) => if items@.len() != n {
            Err(unexpected::<E>(length_msg(n, items@.len()), location))
        } else {
            spec_items::<T, E>(items@, location)
        },
        _ => Err(incorrect_kind::<E>(value, seq![ValueKind::Sequence], location)),
    }
}

/// Read a sequence of exactly `n` elements of `T`, as for a fixed-size
/// array: a sequence of another length is refused before any element is
/// read.
pub fn deserialize_fixed_sequence<T: Deserr<E>, E: DeserializeError>(
    value: Value,
    location: ValuePointerRef,
    n: usize,
) -> (r: Result<Vec<T>, E>)
    ensures
        outcome_view(r) == spec_fixed_sequence::<T, E>(value, location.path(), n as nat),
{
    match value {
        Value::Sequence(items) => {
            if items.len() != n {
                let mut m = String::from_str("expected a sequence of ");
                push_decimal(&mut m, n as u64);
                m.append(" elements but instead found a sequence of ");
                push_decimal(&mut m, items.len() as u64);
                m.append(" elements");
                Err(unexpected_error(m, location))
            } else {
                deserialize_items(items, location)
            }
        },
        _ => Err(incorrect_kind_error(value, kinds1(ValueKind::Sequence), location)),
    }
}


impl DeepView for Value {
    type V = Value;

    open spec fn deep_view(&self) -> Value {
        *self
    }
}

/// A raw value, kept as it is: reading one never fails.
impl<E: DeserializeError> Deserr<E> for Value {
    open spec fn spec_deserialize(value: Value, location: Seq<PathStep>) -> Result<Value, E::V> {
        Ok(value)
    }

    fn deserialize_from_value(value: Value, location: ValuePointerRef) -> (r: Result<Value, E>) {
        Ok(value)
    }
}


/// Relies on `<[T; N] as TryFrom<Vec<T>>>::try_from`: it hands back the
/// whole contents as an array when the length is exactly `N`, and the vector
/// unchanged otherwise.
#[verifier::external_body]
fn vec_into_array<T, const N: usize>(v: Vec<T>) -> (r: Result<[T; N], Vec<T>>)
    ensures
        match r {
            Ok(a) => v@.len() == N && a@ == v@,
            Err(back) => v@.len() != N && back@ == v@,
        },
{
    <[T; N]>::try_from(v)
}

/// A pass over a sequence that ends without an error has read every element.
proof fn lemma_clean_pass_reads_all<T: Deserr<E>, E: DeserializeError>(
    items: Seq<Value>,
    location: Seq<PathStep>,
    n: nat,
)
    ensures
        seq_pass::<T, E>(items, location, n) matches ControlFlow::Continue((vals, None))
            ==> vals.len() == n,
    decreases n,
{
    if n > 0 {
        lemma_clean_pass_reads_all::<T, E>(items, location, (n - 1) as nat);
    }
}

/// A fixed-size array: a sequence of exactly `N` elements, each read at its
/// index.
impl<T: Deserr<E>, E: DeserializeError, const N: usize> Deserr<E> for [T; N] {
    open spec fn spec_deserialize(value: Value, location: Seq<PathStep>) -> Result<Seq<T::V>, E::V> {
        spec_fixed_sequence::<T, E>(value, location, N as nat)
    }

    fn deserialize_from_value(value: Value, location: ValuePointerRef) -> (r: Result<[T; N], E>) {
        let ghost v0 = value;
        match deserialize_fixed_sequence::<T, E>(value, location, N) {
            Ok(elems) => {
                proof {
                    if let Value::Sequence(items) = v0 {
                        lemma_clean_pass_reads_all::<T, E>(items@, location.path(), items@.len());
                    }
                }
                match vec_into_array::<T, N>(elems) {
                    Ok(a) => {
                        assert(a.deep_view() =~= elems.deep_view());
                        Ok(a)
                    },
                    Err(_) => vstd::pervasive::unreached(),
                }
            },
            Err(e) => Err(e),
        }
    }
}

} // verus!
