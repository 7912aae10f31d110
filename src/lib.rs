//! Deserialization of parsed, untyped values into typed data, with errors
//! that carry where in the value each problem was found.
//!
//! A [`Value`] is a tree of nulls, booleans, integers, floats, strings,
//! sequences and maps. A type that implements [`Deserr`] reads itself from a
//! value; the error type, chosen by the caller through [`DeserializeError`]
//! and [`MergeWithError`], decides whether reading stops at the first problem
//! or gathers them all. Structs and enums are read through the field engine
//! in [`fields`] and the variant readers in [`variants`].

use std::ops::ControlFlow;
use vstd::prelude::*;

pub mod default_error;
pub mod fields;
pub mod helpers;
pub mod impls;
pub mod json;
pub mod keys;
pub mod laws;
pub mod maps;
pub mod naming;
pub mod query_params;
pub mod text;
pub mod value;
pub mod variants;

pub use default_error::{DefaultError, DefaultErrorContent, ErrorList};
pub use json::JsonError;
pub use query_params::QueryParamError;
pub use value::{PathStep, Value, ValueKind, ValuePointer, ValuePointerComponent, ValuePointerRef};

verus! {

/// The view of a list of strings: the characters of each, in order.
pub open spec fn strings_view(v: Seq<String>) -> Seq<Seq<char>> {
    v.map_values(|s: String| s@)
}

/// What went wrong, in one of a fixed set of kinds.
pub enum ErrorKind {
    /// The value has a kind that the target does not accept.
    IncorrectValueKind { actual: Value, accepted: Vec<ValueKind> },
    /// A required key is absent.
    MissingField { field: String },
    /// A key that no declared field uses, where unknown keys are refused.
    UnknownKey { key: String, accepted: Vec<String> },
    /// A string that names no declared variant.
    UnknownValue { value: String, accepted: Vec<String> },
    /// Anything else, with a free-form message.
    Unexpected { msg: String },
}

/// The mathematical form of an [`ErrorKind`].
pub enum ErrorKindView {
    IncorrectValueKind { actual: Value, accepted: Seq<ValueKind> },
    MissingField { field: Seq<char> },
    UnknownKey { key: Seq<char>, accepted: Seq<Seq<char>> },
    UnknownValue { value: Seq<char>, accepted: Seq<Seq<char>> },
    Unexpected { msg: Seq<char> },
}

impl View for ErrorKind {
    type V = ErrorKindView;

    open spec fn view(&self) -> ErrorKindView {
        match *self {
            ErrorKind::IncorrectValueKind { actual, accepted } => ErrorKindView::IncorrectValueKind {
                actual,
                accepted: accepted@,
            },
            ErrorKind::MissingField { field } => ErrorKindView::MissingField { field: field@ },
            ErrorKind::UnknownKey { key, accepted } => ErrorKindView::UnknownKey {
                key: key@,
                accepted: strings_view(accepted@),
            },
            ErrorKind::UnknownValue { value, accepted } => ErrorKindView::UnknownValue {
                value: value@,
                accepted: strings_view(accepted@),
            },
            ErrorKind::Unexpected { msg } => ErrorKindView::Unexpected { msg: msg@ },
        }
    }
}

/// The content of a `ControlFlow` whose two sides have one type.
pub open spec fn cf_content<T>(r: ControlFlow<T, T>) -> T {
    match r {
        ControlFlow::Continue(x) => x,
        ControlFlow::Break(x) => x,
    }
}

/// Extract the content of a `ControlFlow` whose two sides have one type.
pub fn take_cf_content<T>(r: ControlFlow<T, T>) -> (x: T)
    ensures
        x == cf_content(r),
{
    match r {
        ControlFlow::Continue(x) => x,
        ControlFlow::Break(x) => x,
    }
}

/// The view of a `ControlFlow` whose two sides have one type.
pub open spec fn cf_view<T: DeepView>(r: ControlFlow<T, T>) -> ControlFlow<T::V, T::V> {
    match r {
        ControlFlow::Continue(x) => ControlFlow::Continue(x.deep_view()),
        ControlFlow::Break(x) => ControlFlow::Break(x.deep_view()),
    }
}

/// How to combine an accumulated error with a new one.
///
/// `merge` returns `Continue(e)` when deserialization should go on and
/// gather more errors into `e`, and `Break(e)` when it should stop now and
/// fail with `e`. Either way the deserialization fails in the end.
pub trait MergeWithError<T: DeepView>: Sized + DeepView {
    /// What `merge` returns, as views.
    spec fn spec_merge(self_: Option<Self::V>, other: T::V, merge_location: Seq<PathStep>) -> ControlFlow<
        Self::V,
        Self::V,
    >;

    /// Merge the existing error, if any, with `other`, at the location where
    /// the merge happens.
    fn merge(self_: Option<Self>, other: T, merge_location: ValuePointerRef) -> (r: ControlFlow<
        Self,
        Self,
    >)
        ensures
            cf_view(r) == Self::spec_merge(
                self_.deep_view(),
                other.deep_view(),
                merge_location.path(),
            ),
    ;
}

/// An error type that deserialization can build and merge.
pub trait DeserializeError: Sized + DeepView + MergeWithError<Self> {
    /// What `error` returns, as views.
    spec fn spec_error(self_: Option<Self::V>, error: ErrorKindView, location: Seq<PathStep>) -> ControlFlow<
        Self::V,
        Self::V,
    >;

    /// Build an error of the given kind at `location`, combined with the
    /// existing error, if any.
    fn error(self_: Option<Self>, error: ErrorKind, location: ValuePointerRef) -> (r: ControlFlow<
        Self,
        Self,
    >)
        ensures
            cf_view(r) == Self::spec_error(self_.deep_view(), error@, location.path()),
    ;
}

/// A type that can be deserialized from a [`Value`], failing with an `E`.
pub trait Deserr<E: DeserializeError>: Sized + DeepView {
    /// The outcome of deserializing `value` found at `location`: the view of
    /// the result, or the view of the error.
    spec fn spec_deserialize(value: Value, location: Seq<PathStep>) -> Result<Self::V, E::V>;

    /// Deserialize `value`, found at `location`.
    fn deserialize_from_value(value: Value, location: ValuePointerRef) -> (r: Result<Self, E>)
        ensures
            outcome_view(r) == Self::spec_deserialize(value, location.path()),
    ;
}

/// The view of an outcome.
pub open spec fn outcome_view<T: DeepView, E: DeepView>(r: Result<T, E>) -> Result<T::V, E::V> {
    match r {
        Ok(x) => Ok(x.deep_view()),
        Err(e) => Err(e.deep_view()),
    }
}

/// Deserialize `value` as a `Ret`, from the root location.
pub fn deserialize<Ret: Deserr<E>, E: DeserializeError>(value: Value) -> (r: Result<Ret, E>)
    ensures
        outcome_view(r) == Ret::spec_deserialize(value, Seq::empty()),
{
    let origin = ValuePointerRef::Origin;
    Ret::deserialize_from_value(value, origin)
}

/// The state of one declared field while a map is read.
pub enum FieldState<T> {
    /// The key has not been seen, and the field has no default.
    Missing,
    /// The key was seen, but its value failed to deserialize.
    Failed,
    /// The field has a value, read from the map or given as its default.
    Present(T),
}

impl<T: DeepView> DeepView for FieldState<T> {
    type V = FieldState<T::V>;

    open spec fn deep_view(&self) -> FieldState<T::V> {
        match self {
            FieldState::Missing => FieldState::Missing,
            FieldState::Failed => FieldState::Failed,
            FieldState::Present(x) => FieldState::Present(x.deep_view()),
        }
    }
}

impl<T> FieldState<T> {
    pub fn is_missing(&self) -> (r: bool)
        ensures
            r == (*self is Missing),
    {
        match self {
            FieldState::Missing => true,
            _ => false,
        }
    }

    /// The value of a present field.
    pub fn unwrap(self) -> (r: T)
        requires
            self is Present,
        ensures
            r == self->Present_0,
    {
        match self {
            FieldState::Present(x) => x,
            _ => vstd::pervasive::unreached(),
        }
    }

    /// The value of a present field, or `value` otherwise.
    pub fn unwrap_or(self, value: T) -> (r: T)
        ensures
            r == match self {
                FieldState::Present(x) => x,
                _ => value,
            },
    {
        match self {
            FieldState::Present(x) => x,
            FieldState::Missing => value,
            FieldState::Failed => value,
        }
    }

    /// The value of a present field, or the error `err` otherwise.
    pub fn ok_or<E>(self, err: E) -> (r: Result<T, E>)
        ensures
            r == match self {
                FieldState::Present(x) => Ok::<T, E>(x),
                _ => Err::<T, E>(err),
            },
    {
        match self {
            FieldState::Present(x) => Ok(x),
            FieldState::Missing => Err(err),
            FieldState::Failed => Err(err),
        }
    }

    /// Apply `f` to the value of a present field.
    pub fn map<U, F: Fn(T) -> U>(self, f: F) -> (r: FieldState<U>)
        requires
            self matches FieldState::Present(x) ==> f.requires((x,)),
        ensures
            self is Missing ==> r is Missing,
            self is Failed ==> r is Failed,
            self matches FieldState::Present(x) ==> (r matches FieldState::Present(y) && f.ensures((x,), y)),
    {
        match self {
            FieldState::Present(x) => FieldState::Present(f(x)),
            FieldState::Missing => FieldState::Missing,
            FieldState::Failed => FieldState::Failed,
        }
    }
}

} // verus!
