use crate::helpers::{did_you_mean, suggestion};
use crate::json::{backticked_list, push_backticked_list};
use crate::text::{decimal, push_decimal, push_signed_decimal, signed_decimal};
use crate::value::{PathStep, Value, ValueKind, ValuePointerRef};
use crate::{DeserializeError, ErrorKind, ErrorKindView, MergeWithError};
use std::ops::ControlFlow;
use vstd::prelude::*;
use vstd::string::StringExecFns;

verus! {

/// A path written in the query-parameter style: the first key bare, later
/// keys after a dot, indices in brackets.
pub open spec fn query_param_path(path: Seq<PathStep>) -> Seq<char>
    decreases path.len(),
{
    if path.len() == 0 {
        Seq::empty()
    } else {
        match path.last() {
            PathStep::Key(k) => if path.len() == 1 {
                k
            } else {
                query_param_path(path.drop_last()) + "."@ + k
            },
            PathStep::Index(i) => query_param_path(path.drop_last()) + "["@ + decimal(i) + "]"@,
        }
    }
}

fn push_query_param_path(s: &mut String, location: &ValuePointerRef)
    ensures
        final(s)@ == old(s)@ + query_param_path(location.path()),
    decreases location,
{
    match location {
        ValuePointerRef::Origin => {
            assert(old(s)@ + query_param_path(location.path()) =~= old(s)@);
        },
        ValuePointerRef::Key { key, prev } => {
            if prev.is_origin() {
                s.append(key);
            } else {
                push_query_param_path(s, prev);
                s.append(".");
                s.append(key);
            }
            proof {
                assert(location.path().drop_last() =~= prev.path());
                assert(final(s)@ =~= old(s)@ + query_param_path(location.path()));
            }
        },
        ValuePointerRef::Index { index, prev } => {
            push_query_param_path(s, prev);
            s.append("[");
            push_decimal(s, *index as u64);
            s.append("]");
            proof {
                assert(location.path().drop_last() =~= prev.path());
                assert(final(s)@ =~= old(s)@ + query_param_path(location.path()));
            }
        },
    }
}

/// A location described in the query-parameter style, after `article`;
/// nothing at the root.
pub open spec fn query_param_location(path: Seq<PathStep>, article: Seq<char>) -> Seq<char> {
    if path.len() == 0 {
        Seq::empty()
    } else {
        article + " `"@ + query_param_path(path) + "`"@
    }
}

/// Describe `location` in the query-parameter style, after `article`, as in
/// `` for parameter `key5[2]` ``; nothing at the root.
pub fn location_query_param_description(location: ValuePointerRef, article: &str) -> (r: String)
    ensures
        r@ == query_param_location(location.path(), article@),
{
    if location.is_origin() {
        String::new()
    } else {
        let mut s = String::from_str(article);
        s.append(" `");
        push_query_param_path(&mut s, &location);
        s.append("`");
        s
    }
}

/// Describe the accepted kinds for query parameters: always `a string`, as
/// every query parameter is text.
pub fn value_kinds_description_query_param(accepted: &Vec<ValueKind>) -> (r: String)
    ensures
        r@ == "a string"@,
{
    String::from_str("a string")
}

/// A received value described for query parameters.
pub open spec fn received_query_param(v: Value) -> Seq<char> {
    match v {
        Value::Null => "null"@,
        Value::Boolean(b) => "a boolean: `"@ + (if b {
            "true"@
        } else {
            "false"@
        }) + "`"@,
        Value::Integer(x) => "an integer: `"@ + decimal(x as nat) + "`"@,
        Value::NegativeInteger(x) => "an integer: `"@ + signed_decimal(x as int) + "`"@,
        Value::Float(_) => "a number"@,
        Value::String(s) => "a string: `"@ + s@ + "`"@,
        Value::Sequence(_) => "multiple values"@,
        Value::Object(_) => "multiple parameters"@,
    }
}

fn value_description_with_kind_query_param(v: &Value) -> (r: String)
    ensures
        r@ == received_query_param(*v),
{
    match v {
        Value::Null => String::from_str("null"),
        Value::Boolean(b) => {
            let mut s = String::from_str("a boolean: `");
            if *b {
                s.append("true");
            } else {
                s.append("false");
            }
            s.append("`");
            s
        },
        Value::Integer(x) => {
            let mut s = String::from_str("an integer: `");
            push_decimal(&mut s, *x);
            s.append("`");
            s
        },
        Value::NegativeInteger(x) => {
            let mut s = String::from_str("an integer: `");
            push_signed_decimal(&mut s, *x);
            s.append("`");
            s
        },
        Value::Float(_) => String::from_str("a number"),
        Value::String(text) => {
            let mut s = String::from_str("a string: `");
            s.append(text.as_str());
            s.append("`");
            s
        },
        Value::Sequence(_) => String::from_str("multiple values"),
        Value::Object(_) => String::from_str("multiple parameters"),
    }
}

/// The message of a [`QueryParamError`] for an error kind at a location.
pub open spec fn query_param_message(kind: ErrorKindView, location: Seq<PathStep>) -> Seq<char> {
    match kind {
        ErrorKindView::IncorrectValueKind { actual, accepted } => "Invalid value type"@
            + query_param_location(location, " for parameter"@) + ": expected "@ + "a string"@
            + ", but found "@
            + received_query_param(actual),
        ErrorKindView::MissingField { field } => "Missing parameter `"@ + field + "`"@
            + query_param_location(location, " inside"@),
        ErrorKindView::UnknownKey { key, accepted } => "Unknown parameter `"@ + key + "`"@
            + query_param_location(location, " inside"@) + ": "@ + suggestion(key, accepted)
            + "expected one of "@ + backticked_list(accepted),
        ErrorKindView::UnknownValue { value, accepted } => "Unknown value `"@ + value + "`"@
            + query_param_location(location, " for parameter"@) + ": "@ + suggestion(value, accepted)
            + "expected one of "@ + backticked_list(accepted),
        ErrorKindView::Unexpected { msg } => "Invalid value"@ + query_param_location(
            location,
            " in parameter"@,
        ) + ": "@ + msg,
    }
}

/// An error for query parameters: one human-readable message about the
/// first failure, after which deserialization stops.
#[derive(Debug, Clone)]
pub struct QueryParamError(String);

impl DeepView for QueryParamError {
    type V = Seq<char>;

    closed spec fn deep_view(&self) -> Seq<char> {
        self.0@
    }
}

impl QueryParamError {
    pub fn new(msg: String) -> (r: QueryParamError)
        ensures
            r.deep_view() == msg@,
    {
        QueryParamError(msg)
    }

    /// The message.
    pub fn message(&self) -> (r: String)
        ensures
            r@ == self.deep_view(),
    {
        self.0.clone()
    }
}

impl MergeWithError<QueryParamError> for QueryParamError {
    open spec fn spec_merge(
        self_: Option<Seq<char>>,
        other: Seq<char>,
        merge_location: Seq<PathStep>,
    ) -> ControlFlow<Seq<char>, Seq<char>> {
        ControlFlow::Break(other)
    }

    fn merge(self_: Option<Self>, other: QueryParamError, merge_location: ValuePointerRef) -> (r:
        ControlFlow<Self, Self>) {
        ControlFlow::Break(other)
    }
}

impl DeserializeError for QueryParamError {
    open spec fn spec_error(
        self_: Option<Seq<char>>,
        error: ErrorKindView,
        location: Seq<PathStep>,
    ) -> ControlFlow<Seq<char>, Seq<char>> {
        ControlFlow::Break(query_param_message(error, location))
    }

    fn error(self_: Option<Self>, error: ErrorKind, location: ValuePointerRef) -> (r: ControlFlow<
        Self,
        Self,
    >) {
        let message = match error {
            ErrorKind::IncorrectValueKind { actual, accepted } => {
                let mut m = String::from_str("Invalid value type");
                let at = location_query_param_description(location, " for parameter");
                m.append(at.as_str());
                m.append(": expected ");
                let expected = value_kinds_description_query_param(&accepted);
                m.append(expected.as_str());
                m.append(", but found ");
                let received = value_description_with_kind_query_param(&actual);
                m.append(received.as_str());
                m
            },
            ErrorKind::MissingField { field } => {
                let mut m = String::from_str("Missing parameter `");
                m.append(field.as_str());
                m.append("`");
                let at = location_query_param_description(location, " inside");
                m.append(at.as_str());
                m
            },
            ErrorKind::UnknownKey { key, accepted } => {
                let mut m = String::from_str("Unknown parameter `");
                m.append(key.as_str());
                m.append("`");
                let at = location_query_param_description(location, " inside");
                m.append(at.as_str());
                m.append(": ");
                let hint = did_you_mean(key.as_str(), &accepted);
                m.append(hint.as_str());
                m.append("expected one of ");
                push_backticked_list(&mut m, &accepted);
                m
            },
            ErrorKind::UnknownValue { value, accepted } => {
                let mut m = String::from_str("Unknown value `");
                m.append(value.as_str());
                m.append("`");
                let at = location_query_param_description(location, " for parameter");
                m.append(at.as_str());
                m.append(": ");
                let hint = did_you_mean(value.as_str(), &accepted);
                m.append(hint.as_str());
                m.append("expected one of ");
                push_backticked_list(&mut m, &accepted);
                m
            },
            ErrorKind::Unexpected { msg } => {
                let mut m = String::from_str("Invalid value");
                let at = location_query_param_description(location, " in parameter");
                m.append(at.as_str());
                m.append(": ");
                m.append(msg.as_str());
                m
            },
        };
        ControlFlow::Break(QueryParamError(message))
    }
}

} // verus!
