//! The failures that reading, writing and resolving documents can report.

use vstd::prelude::*;

verus! {

/// Every failure of this library, as a value that callers can inspect.
#[derive(Debug, PartialEq)]
pub enum Error {
    /// A document declares a kind other than the one it is read or written as.
    InvalidTypeField { expected: String, actual: String },
    /// A document declares a kind that is none of the known ones.
    UnknownType(String),
    /// A required member is missing.
    MissingField(String),
    /// A member does not have the shape that its name calls for.
    InvalidField(String),
    /// An object holds two members under one key.
    DuplicateField,
    /// What has to be a JSON object is something else.
    NotAnObject,
    /// The text is not JSON.
    Syntax(String),
    /// The value cannot be written as JSON text: one of its numbers is
    /// none.
    InvalidNumber,
    /// A relative href was to be resolved for a document that does not know
    /// where it came from.
    NoHref,
    /// An href is not a location: it cannot be read as a URL, nor serve as
    /// the base that a relative href is resolved against.
    InvalidHref(String),
    /// The location names a transport that the reader does not have.
    UnsupportedLocation(String),
    /// Fetching the bytes failed.
    Io { location: String, message: String },
}

/// The mathematical model of an [`Error`].
pub enum ErrorView {
    InvalidTypeField { expected: Seq<char>, actual: Seq<char> },
    UnknownType(Seq<char>),
    MissingField(Seq<char>),
    InvalidField(Seq<char>),
    DuplicateField,
    NotAnObject,
    Syntax(Seq<char>),
    InvalidNumber,
    NoHref,
    InvalidHref(Seq<char>),
    UnsupportedLocation(Seq<char>),
    Io { location: Seq<char>, message: Seq<char> },
}

impl View for Error {
    type V = ErrorView;

    open spec fn view(&self) -> ErrorView {
        match self {
            Error::InvalidTypeField { expected, actual } => ErrorView::InvalidTypeField {
                expected: expected@,
                actual: actual@,
            },
            Error::UnknownType(s) => ErrorView::UnknownType(s@),
            Error::MissingField(s) => ErrorView::MissingField(s@),
            Error::InvalidField(s) => ErrorView::InvalidField(s@),
            Error::DuplicateField => ErrorView::DuplicateField,
            Error::NotAnObject => ErrorView::NotAnObject,
            Error::Syntax(s) => ErrorView::Syntax(s@),
            Error::InvalidNumber => ErrorView::InvalidNumber,
            Error::NoHref => ErrorView::NoHref,
            Error::InvalidHref(s) => ErrorView::InvalidHref(s@),
            Error::UnsupportedLocation(s) => ErrorView::UnsupportedLocation(s@),
            Error::Io { location, message } => ErrorView::Io {
                location: location@,
                message: message@,
            },
        }
    }
}

impl DeepView for Error {
    type V = ErrorView;

    open spec fn deep_view(&self) -> ErrorView {
        self.view()
    }
}

impl ErrorView {
    /// The text that describes the failure.
    pub open spec fn message(self) -> Seq<char> {
        match self {
            ErrorView::InvalidTypeField { expected, actual } => "type field must be '"@ + expected
                + "', got: '"@ + actual + "'"@,
            ErrorView::UnknownType(s) => "unknown type: '"@ + s + "'"@,
            ErrorView::MissingField(s) => "missing field: '"@ + s + "'"@,
            ErrorView::InvalidField(s) => "invalid field: '"@ + s + "'"@,
            ErrorView::DuplicateField => "an object holds a key twice"@,
            ErrorView::NotAnObject => "not a JSON object"@,
            ErrorView::Syntax(s) => "invalid JSON: "@ + s,
            ErrorView::InvalidNumber => "a number is not a JSON number"@,
            ErrorView::NoHref => "the document has no href to resolve against"@,
            ErrorView::InvalidHref(s) => "invalid href: '"@ + s + "'"@,
            ErrorView::UnsupportedLocation(s) => "unsupported location: '"@ + s + "'"@,
            ErrorView::Io { location, message } => "cannot read '"@ + location + "': "@ + message,
        }
    }
}

/// `prefix`, then `text`, then `suffix`.
fn framed(prefix: &str, text: &String, suffix: &str) -> (r: String)
    ensures
        r@ == prefix@ + text@ + suffix@,
{
    let mut out = prefix.to_owned();
    out.append(text.as_str());
    out.append(suffix);
    out
}

impl Error {
    /// Describes the failure in words.
    pub fn message(&self) -> (r: String)
        ensures
            r@ == self@.message(),
    {
        match self {
            Error::InvalidTypeField { expected, actual } => {
                let mut out = framed("type field must be '", expected, "', got: '");
                out.append(actual.as_str());
                out.append("'");
                out
            },
            Error::UnknownType(s) => framed("unknown type: '", s, "'"),
            Error::MissingField(s) => framed("missing field: '", s, "'"),
            Error::InvalidField(s) => framed("invalid field: '", s, "'"),
            Error::DuplicateField => "an object holds a key twice".to_owned(),
            Error::NotAnObject => "not a JSON object".to_owned(),
            Error::Syntax(s) => {
                let mut out = "invalid JSON: ".to_owned();
                out.append(s.as_str());
                out
            },
            Error::InvalidNumber => "a number is not a JSON number".to_owned(),
            Error::NoHref => "the document has no href to resolve against".to_owned(),
            Error::InvalidHref(s) => framed("invalid href: '", s, "'"),
            Error::UnsupportedLocation(s) => framed("unsupported location: '", s, "'"),
            Error::Io { location, message } => {
                let mut out = framed("cannot read '", location, "': ");
                out.append(message.as_str());
                out
            },
        }
    }
}

} // verus!
