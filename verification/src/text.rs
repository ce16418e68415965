//! JSON text: the bytes that a document is stored as.

use crate::document::{Document, DocumentView};
use crate::error::{Error, ErrorView};
use crate::href::Href;
use crate::json::{Json, JsonView};
use crate::wire::{json_of_text, parse_text, print_text, text_of_json};
use vstd::prelude::*;

verus! {

/// Reads JSON text.
pub fn parse(text: &str) -> (r: Result<Json, Error>)
    ensures
        match r {
            Ok(j) => json_of_text(text@) == Some(j@),
            Err(e) => json_of_text(text@) is None && e@ is Syntax,
        },
{
    match parse_text(text) {
        Ok(j) => Ok(j),
        Err(message) => Err(Error::Syntax(message)),
    }
}

/// Writes a JSON value as text.
pub fn print(j: &Json) -> (r: Result<String, Error>)
    ensures
        match r {
            Ok(s) => text_of_json(j@) == Some(s@),
            Err(e) => text_of_json(j@) is None && e@ == ErrorView::InvalidNumber,
        },
{
    match print_text(j) {
        Some(s) => Ok(s),
        None => Err(Error::InvalidNumber),
    }
}

/// What reading a document from a parsed text gives: the failure of the
/// parser, or what the value is read as.
pub open spec fn document_of_parsed(
    parsed: Option<JsonView>,
    r: Result<DocumentView, ErrorView>,
) -> bool {
    match parsed {
        None => r matches Err(e) && e is Syntax,
        Some(j) => r == DocumentView::from_json(j),
    }
}

/// What writing a document to text gives: why it has no JSON, or why the
/// JSON has no text, or the text.
pub open spec fn text_of_document(v: DocumentView, r: Result<Seq<char>, ErrorView>) -> bool {
    match v.to_json() {
        Err(e) => r == Err::<Seq<char>, ErrorView>(e),
        Ok(j) => match text_of_json(j) {
            None => r == Err::<Seq<char>, ErrorView>(ErrorView::InvalidNumber),
            Some(s) => r == Ok::<Seq<char>, ErrorView>(s),
        },
    }
}

impl Document {
    /// Reads a document of whatever kind from JSON text. What is read is
    /// valid and knows no location.
    pub fn from_text(text: &str) -> (r: Result<Document, Error>)
        ensures
            match r {
                Ok(v) => document_of_parsed(json_of_text(text@), Ok(v@)) && v@.is_valid()
                    && v@.href() is None,
                Err(e) => document_of_parsed(json_of_text(text@), Err(e@)),
            },
    {
        match parse(text) {
            Ok(j) => Document::from_json(&j),
            Err(e) => Err(e),
        }
    }

    /// Writes the document as JSON text. The location is not written.
    pub fn to_text(&self) -> (r: Result<String, Error>)
        ensures
            match r {
                Ok(s) => text_of_document(self@, Ok(s@)),
                Err(e) => text_of_document(self@, Err(e@)),
            },
    {
        match self.to_json() {
            Ok(j) => print(&j),
            Err(e) => Err(e),
        }
    }

    /// Reads a document from the text that was fetched from `location`,
    /// and has it remember that location.
    pub fn from_text_at(text: &str, location: &str) -> (r: Result<Document, Error>)
        ensures
            match r {
                Ok(v) => v@.href() == Some(location@) && v@.is_valid() && document_of_parsed(
                    json_of_text(text@),
                    Ok(v@.with_href(None)),
                ),
                Err(e) => document_of_parsed(json_of_text(text@), Err(e@)),
            },
    {
        match Document::from_text(text) {
            Ok(v) => {
                let mut v = v;
                v.set_href(location);
                Ok(v)
            },
            Err(e) => Err(e),
        }
    }
}

} // verus!
