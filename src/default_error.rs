use crate::value::{PathStep, ValueKind, ValuePointer, ValuePointerRef};
use crate::{
    strings_view, take_cf_content, DeserializeError, ErrorKind, ErrorKindView,
    MergeWithError,
};
use std::ops::ControlFlow;
use vstd::prelude::*;

verus! {

/// An error that records the kind of the first failure and where it
/// happened, and stops deserialization at once.
#[derive(Debug, PartialEq, Eq)]
pub struct DefaultError {
    pub location: ValuePointer,
    pub content: DefaultErrorContent,
}

/// What a [`DefaultError`] says went wrong.
#[derive(Debug, PartialEq, Eq)]
pub enum DefaultErrorContent {
    Unexpected(String),
    MissingField(String),
    IncorrectValueKind { accepted: Vec<ValueKind> },
    UnknownKey { key: String, accepted: Vec<String> },
    UnknownValue { value: String, accepted: Vec<String> },
    CustomMissingField(usize),
    Validation,
}

/// The mathematical form of a [`DefaultErrorContent`].
pub enum DefaultErrorContentView {
    Unexpected(Seq<char>),
    MissingField(Seq<char>),
    IncorrectValueKind { accepted: Seq<ValueKind> },
    UnknownKey { key: Seq<char>, accepted: Seq<Seq<char>> },
    UnknownValue { value: Seq<char>, accepted: Seq<Seq<char>> },
    CustomMissingField(nat),
    Validation,
}

/// The mathematical form of a [`DefaultError`].
pub struct DefaultErrorView {
    pub location: Seq<PathStep>,
    pub content: DefaultErrorContentView,
}

impl DeepView for DefaultErrorContent {
    type V = DefaultErrorContentView;

    open spec fn deep_view(&self) -> DefaultErrorContentView {
        match self {
            DefaultErrorContent::Unexpected(m) => DefaultErrorContentView::Unexpected(m@),
            DefaultErrorContent::MissingField(f) => DefaultErrorContentView::MissingField(f@),
            DefaultErrorContent::IncorrectValueKind { accepted } => {
                DefaultErrorContentView::IncorrectValueKind { accepted: accepted@ }
            },
            DefaultErrorContent::UnknownKey { key, accepted } => DefaultErrorContentView::UnknownKey {
                key: key@,
                accepted: strings_view(accepted@),
            },
            DefaultErrorContent::UnknownValue { value, accepted } => {
                DefaultErrorContentView::UnknownValue {
                    value: value@,
                    accepted: strings_view(accepted@),
                }
            },
            DefaultErrorContent::CustomMissingField(i) => DefaultErrorContentView::CustomMissingField(
                *i as nat,
            ),
            DefaultErrorContent::Validation => DefaultErrorContentView::Validation,
        }
    }
}

impl DeepView for DefaultError {
    type V = DefaultErrorView;

    open spec fn deep_view(&self) -> DefaultErrorView {
        DefaultErrorView { location: self.location.steps(), content: self.content.deep_view() }
    }
}

/// The content that a [`DefaultError`] records for an error kind.
pub open spec fn content_of(kind: ErrorKindView) -> DefaultErrorContentView {
    match kind {
        ErrorKindView::IncorrectValueKind { actual: _, accepted } => {
            DefaultErrorContentView::IncorrectValueKind { accepted }
        },
        ErrorKindView::MissingField { field } => DefaultErrorContentView::MissingField(field),
        ErrorKindView::UnknownKey { key, accepted } => DefaultErrorContentView::UnknownKey {
            key,
            accepted,
        },
        ErrorKindView::UnknownValue { value, accepted } => DefaultErrorContentView::UnknownValue {
            value,
            accepted,
        },
        ErrorKindView::Unexpected { msg } => DefaultErrorContentView::Unexpected(msg),
    }
}

impl MergeWithError<DefaultError> for DefaultError {
    open spec fn spec_merge(
        self_: Option<DefaultErrorView>,
        other: DefaultErrorView,
        merge_location: Seq<PathStep>,
    ) -> ControlFlow<DefaultErrorView, DefaultErrorView> {
        ControlFlow::Break(other)
    }

    fn merge(self_: Option<Self>, other: DefaultError, merge_location: ValuePointerRef) -> (r:
        ControlFlow<Self, Self>) {
        ControlFlow::Break(other)
    }
}

impl DeserializeError for DefaultError {
    open spec fn spec_error(
        self_: Option<DefaultErrorView>,
        error: ErrorKindView,
        location: Seq<PathStep>,
    ) -> ControlFlow<DefaultErrorView, DefaultErrorView> {
        ControlFlow::Break(DefaultErrorView { location, content: content_of(error) })
    }

    fn error(self_: Option<Self>, error: ErrorKind, location: ValuePointerRef) -> (r: ControlFlow<
        Self,
        Self,
    >) {
        let content = match error {
            ErrorKind::IncorrectValueKind { actual: _, accepted } => {
                DefaultErrorContent::IncorrectValueKind { accepted }
            },
            ErrorKind::MissingField { field } => DefaultErrorContent::MissingField(field),
            ErrorKind::UnknownKey { key, accepted } => DefaultErrorContent::UnknownKey {
                key,
                accepted,
            },
            ErrorKind::UnknownValue { value, accepted } => DefaultErrorContent::UnknownValue {
                value,
                accepted,
            },
            ErrorKind::Unexpected { msg } => DefaultErrorContent::Unexpected(msg),
        };
        ControlFlow::Break(DefaultError { location: location.to_owned(), content })
    }
}


/// An error that gathers every failure, each with its content and location,
/// and lets deserialization go on to find the others.
#[derive(Debug, PartialEq, Eq)]
pub struct ErrorList {
    pub errors: Vec<DefaultError>,
}

impl DeepView for ErrorList {
    type V = Seq<DefaultErrorView>;

    open spec fn deep_view(&self) -> Seq<DefaultErrorView> {
        self.errors@.map_values(|e: DefaultError| e.deep_view())
    }
}

/// The failures gathered so far, none before the first.
pub open spec fn gathered(self_: Option<Seq<DefaultErrorView>>) -> Seq<DefaultErrorView> {
    match self_ {
        Some(s) => s,
        None => Seq::empty(),
    }
}

impl MergeWithError<ErrorList> for ErrorList {
    open spec fn spec_merge(
        self_: Option<Seq<DefaultErrorView>>,
        other: Seq<DefaultErrorView>,
        merge_location: Seq<PathStep>,
    ) -> ControlFlow<Seq<DefaultErrorView>, Seq<DefaultErrorView>> {
        ControlFlow::Continue(gathered(self_) + other)
    }

    fn merge(self_: Option<Self>, other: ErrorList, merge_location: ValuePointerRef) -> (r:
        ControlFlow<Self, Self>) {
        let ghost ov = other.deep_view();
        let mut rest = other;
        let mut errors = match self_ {
            Some(list) => list.errors,
            None => Vec::new(),
        };
        let ghost before = errors@;
        errors.append(&mut rest.errors);
        let r = ErrorList { errors };
        proof {
            assert(r.deep_view() =~= gathered(self_.deep_view()) + ov) by {
                assert(before.map_values(|e: DefaultError| e.deep_view()) =~= gathered(
                    self_.deep_view(),
                ));
            }
        }
        ControlFlow::Continue(r)
    }
}

impl DeserializeError for ErrorList {
    open spec fn spec_error(
        self_: Option<Seq<DefaultErrorView>>,
        error: ErrorKindView,
        location: Seq<PathStep>,
    ) -> ControlFlow<Seq<DefaultErrorView>, Seq<DefaultErrorView>> {
        ControlFlow::Continue(
            gathered(self_).push(DefaultErrorView { location, content: content_of(error) }),
        )
    }

    fn error(self_: Option<Self>, error: ErrorKind, location: ValuePointerRef) -> (r: ControlFlow<
        Self,
        Self,
    >) {
        let mut errors = match self_ {
            Some(list) => list.errors,
            None => Vec::new(),
        };
        let ghost before = errors@;
        let one: DefaultError = take_cf_content(DefaultError::error(None, error, location));
        errors.push(one);
        let r = ErrorList { errors };
        proof {
            assert(before.map_values(|e: DefaultError| e.deep_view()) =~= gathered(
                self_.deep_view(),
            ));
            assert(r.deep_view() =~= gathered(self_.deep_view()).push(one.deep_view()));
        }
        ControlFlow::Continue(r)
    }
}

} // verus!
