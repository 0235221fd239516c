//! The faults that end a generation pass.

use crate::key::Key;
use vstd::prelude::*;
use vstd::string::*;

verus! {

/// Why a struct's description was rejected. Every fault is fatal: a pass that
/// meets one produces no flag at all.
#[derive(Clone, Debug, PartialEq, Eq)]
pub enum Error {
    /// The input is not a struct with named fields.
    NotARecord,
    /// An annotation block has no entries.
    EmptyAttribute,
    /// An annotation block holds this key, which names no `Key`.
    UnknownKey(String),
    /// A key other than `skip` was written without a value.
    KeywordRequiresValue(Key),
    /// `skip` was written with a value.
    SkipTakesValue,
    /// `prefix`, `type`, `visibility` or `placeholder` was given a value that
    /// is no quoted string.
    ExpectedStringLiteral(Key),
    /// `prefix`, `type`, `visibility` or `placeholder` was given the empty
    /// string.
    EmptyValue(Key),
    /// The field of this name has a type that is no plain named type, and no
    /// `type` annotation replaces it.
    UnsupportedType(String),
}

/// `Error` with each string as its characters.
pub enum ErrorView {
    NotARecord,
    EmptyAttribute,
    UnknownKey(Seq<char>),
    KeywordRequiresValue(Key),
    SkipTakesValue,
    ExpectedStringLiteral(Key),
    EmptyValue(Key),
    UnsupportedType(Seq<char>),
}

impl View for Error {
    type V = ErrorView;

    open spec fn view(&self) -> ErrorView {
        match self {
            Error::NotARecord => ErrorView::NotARecord,
            Error::EmptyAttribute => ErrorView::EmptyAttribute,
            Error::UnknownKey(key) => ErrorView::UnknownKey(key@),
            Error::KeywordRequiresValue(key) => ErrorView::KeywordRequiresValue(*key),
            Error::SkipTakesValue => ErrorView::SkipTakesValue,
            Error::ExpectedStringLiteral(key) => ErrorView::ExpectedStringLiteral(*key),
            Error::EmptyValue(key) => ErrorView::EmptyValue(*key),
            Error::UnsupportedType(field) => ErrorView::UnsupportedType(field@),
        }
    }
}

impl ErrorView {
    /// What the fault is called when it is reported: the key or the field
    /// at fault, and what was expected in its place.
    pub open spec fn message(self) -> Seq<char> {
        match self {
            ErrorView::NotARecord => "expected a struct with named fields"@,
            ErrorView::EmptyAttribute => "`#[gflags(...)]` expects a non-empty parameter list"@,
            ErrorView::UnknownKey(key) => "Invalid keyword `"@ + key + "`"@,
            ErrorView::KeywordRequiresValue(key) => "Keyword `"@ + key.text()
                + "` requires a value"@,
            ErrorView::SkipTakesValue => "`#[gflags(skip)]` does not take a value"@,
            ErrorView::ExpectedStringLiteral(key) => "`#[gflags("@ + key.text()
                + "=...)]` expects a quoted string"@,
            ErrorView::EmptyValue(key) => "`#[gflags("@ + key.text()
                + "=...)]` expects a non-empty quoted string"@,
            ErrorView::UnsupportedType(field) => "Unexpected type of field `"@ + field + "`"@,
        }
    }
}

impl Error {
    /// The message that reports this fault.
    pub fn message(&self) -> (message: String)
        ensures
            message@ == self@.message(),
    {
        match self {
            Error::NotARecord => "expected a struct with named fields".to_owned(),
            Error::EmptyAttribute => "`#[gflags(...)]` expects a non-empty parameter list".to_owned(),
            Error::UnknownKey(key) => {
                let mut message = "Invalid keyword `".to_owned();
                message.append(key.as_str());
                message.append("`");
                message
            },
            Error::KeywordRequiresValue(key) => {
                let mut message = "Keyword `".to_owned();
                message.append(key.name());
                message.append("` requires a value");
                message
            },
            Error::SkipTakesValue => "`#[gflags(skip)]` does not take a value".to_owned(),
            Error::ExpectedStringLiteral(key) => {
                let mut message = "`#[gflags(".to_owned();
                message.append(key.name());
                message.append("=...)]` expects a quoted string");
                message
            },
            Error::EmptyValue(key) => {
                let mut message = "`#[gflags(".to_owned();
                message.append(key.name());
                message.append("=...)]` expects a non-empty quoted string");
                message
            },
            Error::UnsupportedType(field) => {
                let mut message = "Unexpected type of field `".to_owned();
                message.append(field.as_str());
                message.append("`");
                message
            },
        }
    }
}

} // verus!
