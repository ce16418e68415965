//! The discriminator: the `type` member that tells the document kinds
//! apart on the wire.

use crate::error::{Error, ErrorView};
use crate::field::{read_string, required_string};
use crate::json::{Json, JsonView, Members};
use vstd::prelude::*;

verus! {

/// The version of the STAC specification that new documents declare.
pub const STAC_VERSION: &'static str = "1.0.0";

/// The discriminator of an item.
pub const ITEM_TYPE: &'static str = "Feature";

/// The discriminator of a catalog.
pub const CATALOG_TYPE: &'static str = "Catalog";

/// The discriminator of a collection.
pub const COLLECTION_TYPE: &'static str = "Collection";

/// A discriminator is accepted where it is the expected one, letter for
/// letter; the failure carries both.
pub open spec fn check_type(actual: Seq<char>, expected: Seq<char>) -> Result<
    Seq<char>,
    ErrorView,
> {
    if actual == expected {
        Ok(actual)
    } else {
        Err(ErrorView::InvalidTypeField { expected, actual })
    }
}

/// The `type` member of `ms`, which has to be the string `expected`.
pub open spec fn type_field(ms: Members, expected: Seq<char>) -> Result<Seq<char>, ErrorView> {
    match required_string(ms, "type"@) {
        Err(e) => Err(e),
        Ok(actual) => check_type(actual, expected),
    }
}

/// The JSON of a discriminator that is the expected one.
pub open spec fn type_json(actual: Seq<char>, expected: Seq<char>) -> Result<JsonView, ErrorView> {
    match check_type(actual, expected) {
        Err(e) => Err(e),
        Ok(s) => Ok(JsonView::String(s)),
    }
}

/// Accepts a discriminator that was read, if it is the expected one.
pub fn deserialize_type(actual: String, expected: &str) -> (r: Result<String, Error>)
    ensures
        match r {
            Ok(s) => check_type(actual@, expected@) == Ok::<Seq<char>, ErrorView>(s@),
            Err(e) => check_type(actual@, expected@) == Err::<Seq<char>, ErrorView>(e@),
        },
{
    let wanted = expected.to_owned();
    if actual == wanted {
        Ok(actual)
    } else {
        Err(Error::InvalidTypeField { expected: wanted, actual })
    }
}

/// Writes a discriminator, if it still is the expected one.
pub fn serialize_type(actual: &String, expected: &str) -> (r: Result<Json, Error>)
    ensures
        match r {
            Ok(j) => type_json(actual@, expected@) == Ok::<JsonView, ErrorView>(j@),
            Err(e) => type_json(actual@, expected@) == Err::<JsonView, ErrorView>(e@),
        },
{
    let wanted = expected.to_owned();
    if *actual == wanted {
        Ok(Json::String(actual.clone()))
    } else {
        Err(Error::InvalidTypeField { expected: wanted, actual: actual.clone() })
    }
}

/// Reads the `type` member, which has to be the string `expected`.
pub fn read_type(members: &Vec<(String, Json)>, expected: &str) -> (r: Result<String, Error>)
    ensures
        match r {
            Ok(s) => type_field(members.deep_view(), expected@) == Ok::<Seq<char>, ErrorView>(s@),
            Err(e) => type_field(members.deep_view(), expected@) == Err::<Seq<char>, ErrorView>(
                e@,
            ),
        },
{
    match read_string(members, "type") {
        Ok(actual) => deserialize_type(actual, expected),
        Err(e) => Err(e),
    }
}

} // verus!
