//! The calls into outside crates: `serde_json`, which reads and writes
//! JSON text, and `url`, which parses URLs and resolves references.
//!
//! Nothing here is proved: each contract says what the outside function is
//! taken to do.

use crate::json::{Json, JsonView, Number};
use vstd::prelude::*;

verus! {

/// The values of `serde_json`, which the text is parsed into.
#[verifier::external_type_specification]
#[verifier::external_body]
pub struct ExSerdeValue(serde_json::Value);

/// The value that `serde_json::from_str` reads a text as, where it reads
/// it as one.
pub uninterp spec fn json_of_text(text: Seq<char>) -> Option<JsonView>;

/// The text that `serde_json::to_string` writes a value as, where the
/// value can be written.
pub uninterp spec fn text_of_json(j: JsonView) -> Option<Seq<char>>;

/// Turns a `serde_json::Value` into a value of this library, variant by
/// variant. A number keeps the literal that `serde_json::Number` shows it
/// as.
#[verifier::external_body]
fn json_from_serde(value: serde_json::Value) -> Json {
    match value {
        serde_json::Value::Null => Json::Null,
        serde_json::Value::Bool(b) => Json::Bool(b),
        serde_json::Value::Number(n) => Json::Number(Number { literal: n.to_string() }),
        serde_json::Value::String(s) => Json::String(s),
        serde_json::Value::Array(a) => Json::Array(a.into_iter().map(json_from_serde).collect()),
        serde_json::Value::Object(o) => Json::Object(
            o.into_iter().map(|(k, v)| (k, json_from_serde(v))).collect(),
        ),
    }
}

/// Turns a value of this library into a `serde_json::Value`, variant by
/// variant. A number is what `serde_json::from_str` reads its literal as;
/// where that is no number, there is no value.
#[verifier::external_body]
fn json_to_serde(j: &Json) -> Option<serde_json::Value> {
    Some(
        match j {
            Json::Null => serde_json::Value::Null,
            Json::Bool(b) => serde_json::Value::Bool(*b),
            Json::Number(n) => serde_json::Value::Number(serde_json::from_str(&n.literal).ok()?),
            Json::String(s) => serde_json::Value::String(s.clone()),
            Json::Array(a) => serde_json::Value::Array(
                a.iter().map(json_to_serde).collect::<Option<_>>()?,
            ),
            Json::Object(o) => serde_json::Value::Object(
                o.iter().map(|m| Some((m.0.clone(), json_to_serde(&m.1)?))).collect::<Option<_>>()?,
            ),
        },
    )
}

/// Calls `serde_json::from_str` for a `serde_json::Value`. What it reads
/// is a function of the text alone, and is the value that `json_of_text`
/// names; where it reads none, its message comes back.
#[verifier::external_body]
pub(crate) fn parse_text(text: &str) -> (r: Result<Json, String>)
    ensures
        match r {
            Ok(j) => json_of_text(text@) == Some(j@),
            Err(_) => json_of_text(text@) is None,
        },
{
    serde_json::from_str::<serde_json::Value>(text).map(json_from_serde).map_err(
        |e| e.to_string(),
    )
}

/// Calls `serde_json::to_string` on the value. What it writes is a
/// function of the value alone, and is the text that `text_of_json` names;
/// there is none where the value holds a number that is none.
#[verifier::external_body]
pub(crate) fn print_text(j: &Json) -> (r: Option<String>)
    ensures
        r.deep_view() == text_of_json(j@),
{
    json_to_serde(j).and_then(|v| serde_json::to_string(&v).ok())
}

/// What `url::Url::parse` makes of a text: the URL as it is written in
/// full, and its scheme.
#[derive(Debug, PartialEq)]
pub struct Url {
    /// The URL, as `url` writes it.
    pub text: String,
    /// The scheme, in lower case and without the colon.
    pub scheme: String,
}

/// The mathematical model of a [`Url`].
pub struct UrlView {
    pub text: Seq<char>,
    pub scheme: Seq<char>,
}

impl DeepView for Url {
    type V = UrlView;

    open spec fn deep_view(&self) -> UrlView {
        UrlView { text: self.text@, scheme: self.scheme@ }
    }
}

impl View for Url {
    type V = UrlView;

    open spec fn view(&self) -> UrlView {
        self.deep_view()
    }
}

/// The URL that `url::Url::parse` reads a text as, where it reads it as
/// one.
pub uninterp spec fn url_of_text(text: Seq<char>) -> Option<UrlView>;

/// The URL that `url::Url::join` resolves `reference` to against the URL
/// that `base` is read as, where `base` is read as one and the reference
/// can be resolved.
pub uninterp spec fn url_joined(base: Seq<char>, reference: Seq<char>) -> Option<Seq<char>>;

/// Calls `url::Url::parse`. What it reads is a function of the text
/// alone, and is the URL that `url_of_text` names: the text that the URL
/// is written as in full, and the scheme that `url::Url::scheme` gives.
#[verifier::external_body]
pub(crate) fn parse_url(text: &str) -> (r: Option<Url>)
    ensures
        r.deep_view() == url_of_text(text@),
{
    url::Url::parse(text).ok().map(|u| Url { scheme: u.scheme().to_owned(), text: String::from(u) })
}

/// Calls `url::Url::join` on the URL that `url::Url::parse` reads `base`
/// as. What it resolves to is a function of the two texts alone, and is
/// the text that `url_joined` names; there is none where the base is no
/// URL or the reference cannot be resolved against it.
#[verifier::external_body]
pub(crate) fn join_url(base: &str, reference: &str) -> (r: Option<String>)
    ensures
        r.deep_view() == url_joined(base@, reference@),
{
    url::Url::parse(base).ok()?.join(reference).ok().map(String::from)
}

} // verus!
