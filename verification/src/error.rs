//! Errors of the two directions of the mapping.
use vstd::prelude::*;
use crate::context::{option_string_view, ContextIris, ContextIrisView};

verus! {

/// Why a value could not be read back from a dataset. Every error carries
/// the context in which it was met.
#[derive(Debug, PartialEq, Eq)]
pub enum FromLinkedDataError {
    /// Resource has no IRI representation.
    ExpectedIri(ContextIris),
    /// Resource has an IRI that the type does not support.
    UnsupportedIri { context: ContextIris, found: String, supported: Option<Vec<String>> },
    /// Resource has no literal representation.
    ExpectedLiteral(ContextIris),
    /// Resource has literal representations, but none of the expected type.
    LiteralTypeMismatch { context: ContextIris, expected: Option<String>, found: String },
    /// Resource has a literal of the expected type whose lexical value could
    /// not be parsed.
    InvalidLiteral(ContextIris),
    /// A required value is missing.
    MissingRequiredValue(ContextIris),
    /// More values than the type takes.
    TooManyValues(ContextIris),
    /// The subject does not fit the type.
    InvalidSubject { context: ContextIris, subject: Option<String> },
}

/// What kind of error a [`FromLinkedDataError`] is.
#[derive(Clone, Copy, Debug, PartialEq, Eq, Structural)]
pub enum ErrorKind {
    ExpectedIri,
    UnsupportedIri,
    ExpectedLiteral,
    LiteralTypeMismatch,
    InvalidLiteral,
    MissingRequiredValue,
    TooManyValues,
    InvalidSubject,
}

/// Mathematical value of a [`FromLinkedDataError`]: its kind, the context in
/// which it was met, and what else it tells, where it tells more.
pub struct ErrorView {
    pub kind: ErrorKind,
    pub context: ContextIrisView,
    /// The IRI that was found, for an unsupported IRI or a literal of
    /// another type.
    pub found: Option<Seq<char>>,
    /// The type that was expected, for a literal of another type.
    pub expected: Option<Seq<char>>,
    /// The IRIs that are supported, for an unsupported IRI.
    pub supported: Option<Seq<Seq<char>>>,
    /// The subject, for an invalid subject.
    pub subject: Option<Seq<char>>,
}

/// The error of the given kind that tells no more than its context.
pub open spec fn plain_error(kind: ErrorKind, context: ContextIrisView) -> ErrorView {
    ErrorView { kind, context, found: None, expected: None, supported: None, subject: None }
}

/// The error of a literal whose type is `found` where `expected` was
/// expected.
pub open spec fn type_mismatch(
    context: ContextIrisView,
    expected: Option<Seq<char>>,
    found: Seq<char>,
) -> ErrorView {
    ErrorView {
        kind: ErrorKind::LiteralTypeMismatch,
        context,
        found: Some(found),
        expected,
        supported: None,
        subject: None,
    }
}

impl View for FromLinkedDataError {
    type V = ErrorView;

    open spec fn view(&self) -> ErrorView {
        ErrorView {
            kind: self.spec_kind(),
            context: self.spec_context()@,
            found: match *self {
                FromLinkedDataError::UnsupportedIri { found, .. } => Some(found@),
                FromLinkedDataError::LiteralTypeMismatch { found, .. } => Some(found@),
                _ => None,
            },
            expected: match *self {
                FromLinkedDataError::LiteralTypeMismatch { expected, .. } => option_string_view(
                    expected,
                ),
                _ => None,
            },
            supported: match *self {
                FromLinkedDataError::UnsupportedIri { supported: Some(iris), .. } => Some(
                    iris@.map_values(|iri: String| iri@),
                ),
                _ => None,
            },
            subject: match *self {
                FromLinkedDataError::InvalidSubject { subject, .. } => option_string_view(subject),
                _ => None,
            },
        }
    }
}

impl FromLinkedDataError {
    /// Kind of the error.
    pub open spec fn spec_kind(&self) -> ErrorKind {
        match *self {
            FromLinkedDataError::ExpectedIri(_) => ErrorKind::ExpectedIri,
            FromLinkedDataError::UnsupportedIri { .. } => ErrorKind::UnsupportedIri,
            FromLinkedDataError::ExpectedLiteral(_) => ErrorKind::ExpectedLiteral,
            FromLinkedDataError::LiteralTypeMismatch { .. } => ErrorKind::LiteralTypeMismatch,
            FromLinkedDataError::InvalidLiteral(_) => ErrorKind::InvalidLiteral,
            FromLinkedDataError::MissingRequiredValue(_) => ErrorKind::MissingRequiredValue,
            FromLinkedDataError::TooManyValues(_) => ErrorKind::TooManyValues,
            FromLinkedDataError::InvalidSubject { .. } => ErrorKind::InvalidSubject,
        }
    }

    /// Kind of the error.
    pub fn kind(&self) -> (res: ErrorKind)
        ensures
            res == self.spec_kind(),
    {
        match self {
            FromLinkedDataError::ExpectedIri(_) => ErrorKind::ExpectedIri,
            FromLinkedDataError::UnsupportedIri { .. } => ErrorKind::UnsupportedIri,
            FromLinkedDataError::ExpectedLiteral(_) => ErrorKind::ExpectedLiteral,
            FromLinkedDataError::LiteralTypeMismatch { .. } => ErrorKind::LiteralTypeMismatch,
            FromLinkedDataError::InvalidLiteral(_) => ErrorKind::InvalidLiteral,
            FromLinkedDataError::MissingRequiredValue(_) => ErrorKind::MissingRequiredValue,
            FromLinkedDataError::TooManyValues(_) => ErrorKind::TooManyValues,
            FromLinkedDataError::InvalidSubject { .. } => ErrorKind::InvalidSubject,
        }
    }

    /// Context in which the error was met.
    pub open spec fn spec_context(&self) -> ContextIris {
        match *self {
            FromLinkedDataError::ExpectedIri(c) => c,
            FromLinkedDataError::UnsupportedIri { context, .. } => context,
            FromLinkedDataError::ExpectedLiteral(c) => c,
            FromLinkedDataError::LiteralTypeMismatch { context, .. } => context,
            FromLinkedDataError::InvalidLiteral(c) => c,
            FromLinkedDataError::MissingRequiredValue(c) => c,
            FromLinkedDataError::TooManyValues(c) => c,
            FromLinkedDataError::InvalidSubject { context, .. } => context,
        }
    }

    /// Context in which the error was met.
    pub fn context(&self) -> (res: &ContextIris)
        ensures
            *res == self.spec_context(),
    {
        match self {
            FromLinkedDataError::ExpectedIri(c) => c,
            FromLinkedDataError::UnsupportedIri { context, .. } => context,
            FromLinkedDataError::ExpectedLiteral(c) => c,
            FromLinkedDataError::LiteralTypeMismatch { context, .. } => context,
            FromLinkedDataError::InvalidLiteral(c) => c,
            FromLinkedDataError::MissingRequiredValue(c) => c,
            FromLinkedDataError::TooManyValues(c) => c,
            FromLinkedDataError::InvalidSubject { context, .. } => context,
        }
    }

    /// Message of the error.
    pub fn message(&self) -> (res: String)
        ensures
            res@ == (match *self {
                FromLinkedDataError::ExpectedIri(_) => "expected IRI"@,
                FromLinkedDataError::UnsupportedIri { found, .. } => "unsupported IRI `"@ + found@
                    + "`"@,
                FromLinkedDataError::ExpectedLiteral(_) => "expected literal"@,
                FromLinkedDataError::LiteralTypeMismatch { .. } => "literal type mismatch"@,
                FromLinkedDataError::InvalidLiteral(_) => "invalid literal"@,
                FromLinkedDataError::MissingRequiredValue(_) => "missing required value"@,
                FromLinkedDataError::TooManyValues(_) => "too many values"@,
                FromLinkedDataError::InvalidSubject { .. } => "invalid subject"@,
            }),
    {
        match self {
            FromLinkedDataError::ExpectedIri(_) => String::from_str("expected IRI"),
            FromLinkedDataError::UnsupportedIri { found, .. } => {
                let mut text = String::from_str("unsupported IRI `");
                text.append(found.as_str());
                text.append("`");
                text
            },
            FromLinkedDataError::ExpectedLiteral(_) => String::from_str("expected literal"),
            FromLinkedDataError::LiteralTypeMismatch { .. } => String::from_str(
                "literal type mismatch",
            ),
            FromLinkedDataError::InvalidLiteral(_) => String::from_str("invalid literal"),
            FromLinkedDataError::MissingRequiredValue(_) => String::from_str(
                "missing required value",
            ),
            FromLinkedDataError::TooManyValues(_) => String::from_str("too many values"),
            FromLinkedDataError::InvalidSubject { .. } => String::from_str("invalid subject"),
        }
    }
}

} // verus!
