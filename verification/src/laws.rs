//! What holds of the library as a whole: the laws that relate reading to
//! writing, kinds to discriminators, and links to locations.

use crate::catalog::{
    catalog_fields, lemma_catalog_from_json_valid, lemma_catalog_known_members, CatalogView,
};
use crate::collection::{
    collection_fields, lemma_collection_from_json_valid, lemma_collection_known_members,
    CollectionView,
};
use crate::document::{
    encode_items, items_without_href, lemma_document_from_json_valid,
    lemma_document_round_trip, lemma_kinds, DocumentView, ItemCollectionView,
};
use crate::error::ErrorView;
use crate::field::decode_all;
use crate::href::{above, here, is_absolute_path, join_path, normal, resolution};
use crate::io::{located, LocationView};
use crate::item::{item_fields, lemma_item_from_json_valid, lemma_item_known_members, ItemView};
use crate::json::{distinct_keys, lemma_rest_is_kept, member, JsonView};
use crate::kind::{CATALOG_TYPE, COLLECTION_TYPE, ITEM_TYPE};
use crate::wire::{url_of_text, UrlView};
use vstd::prelude::*;

verus! {

/// Items are written alike whether or not they remember where they came
/// from.
pub proof fn lemma_items_written_without_href(items: Seq<ItemView>)
    ensures
        encode_items(items_without_href(items)) == encode_items(items),
    decreases items.len(),
{
    if items.len() > 0 {
        lemma_items_written_without_href(items.drop_last());
        assert(items_without_href(items).drop_last() =~= items_without_href(items.drop_last()));
        assert(items_without_href(items).last() == items.last().without_href());
    } else {
        assert(items_without_href(items) =~= items);
    }
}

/// The location of a document is never part of what is written: whatever
/// the document remembers, it is written alike.
pub proof fn lemma_href_is_not_written(v: DocumentView, href: Option<Seq<char>>)
    ensures
        v.with_href(href).to_json() == v.to_json(),
        v.without_href().to_json() == v.to_json(),
{
    match v {
        DocumentView::ItemCollection(p) => {
            lemma_items_written_without_href(p.items);
        },
        _ => {},
    }
}

/// A valid document of any kind can be written; what was written can be
/// read; and what was read is written as the document was. Members that
/// the library gives no meaning to are part of this: they are kept as
/// they are.
pub proof fn lemma_write_read_write(v: DocumentView)
    requires
        v.is_valid(),
    ensures
        v.to_json() is Ok,
        DocumentView::from_json(v.to_json()->Ok_0) is Ok,
        DocumentView::from_json(v.to_json()->Ok_0)->Ok_0.to_json() == v.to_json(),
{
    lemma_document_round_trip(v);
    lemma_href_is_not_written(v, None);
}

/// A document that was read can be written, and what is written is read
/// as the same document.
pub proof fn lemma_read_write_read(j: JsonView)
    requires
        DocumentView::from_json(j) is Ok,
    ensures
        DocumentView::from_json(j)->Ok_0.to_json() is Ok,
        DocumentView::from_json(DocumentView::from_json(j)->Ok_0.to_json()->Ok_0)
            == DocumentView::from_json(j),
{
    lemma_document_from_json_valid(j);
    lemma_document_round_trip(DocumentView::from_json(j)->Ok_0);
}

/// A member of an item's object that the item gives no meaning to is
/// kept: once the item has been read and written, the member stands under
/// its key as it stood.
pub proof fn lemma_item_keeps_foreign_members(j: JsonView, i: int)
    requires
        ItemView::from_json(j) is Ok,
        0 <= i < j->Object_0.len(),
        !item_fields().contains(j->Object_0[i].0),
    ensures
        ItemView::from_json(j)->Ok_0.to_json() matches Ok(JsonView::Object(written)) && member(
            written,
            j->Object_0[i].0,
        ) == Some(j->Object_0[i].1),
{
    let x = ItemView::from_json(j)->Ok_0;
    lemma_item_from_json_valid(j);
    lemma_item_known_members(x);
    lemma_rest_is_kept(x.known_members(), j->Object_0, item_fields(), i);
}

/// A member of a catalog's object that the catalog gives no meaning to is
/// kept: once the catalog has been read and written, the member stands
/// under its key as it stood.
pub proof fn lemma_catalog_keeps_foreign_members(j: JsonView, i: int)
    requires
        CatalogView::from_json(j) is Ok,
        0 <= i < j->Object_0.len(),
        !catalog_fields().contains(j->Object_0[i].0),
    ensures
        CatalogView::from_json(j)->Ok_0.to_json() matches Ok(JsonView::Object(written)) && member(
            written,
            j->Object_0[i].0,
        ) == Some(j->Object_0[i].1),
{
    let c = CatalogView::from_json(j)->Ok_0;
    lemma_catalog_from_json_valid(j);
    lemma_catalog_known_members(c);
    lemma_rest_is_kept(c.known_members(), j->Object_0, catalog_fields(), i);
}

/// A member of a collection's object that the collection gives no meaning
/// to is kept: once the collection has been read and written, the member
/// stands under its key as it stood.
pub proof fn lemma_collection_keeps_foreign_members(j: JsonView, i: int)
    requires
        CollectionView::from_json(j) is Ok,
        0 <= i < j->Object_0.len(),
        !collection_fields().contains(j->Object_0[i].0),
    ensures
        CollectionView::from_json(j)->Ok_0.to_json() matches Ok(JsonView::Object(written))
            && member(written, j->Object_0[i].0) == Some(j->Object_0[i].1),
{
    let c = CollectionView::from_json(j)->Ok_0;
    lemma_collection_from_json_valid(j);
    lemma_collection_known_members(c);
    lemma_rest_is_kept(c.known_members(), j->Object_0, collection_fields(), i);
}

/// An object with the discriminator of another kind is not read as an
/// item: the failure names the discriminator that was expected and the
/// one that was found.
pub proof fn lemma_item_refuses_other_kinds(j: JsonView, actual: Seq<char>)
    requires
        j matches JsonView::Object(ms) && distinct_keys(ms) && member(ms, "type"@) == Some(
            JsonView::String(actual),
        ),
        actual != ITEM_TYPE@,
    ensures
        ItemView::from_json(j) == Err::<ItemView, ErrorView>(
            ErrorView::InvalidTypeField { expected: ITEM_TYPE@, actual },
        ),
{
}

/// An object with the discriminator of another kind is not read as a
/// catalog: the failure names both discriminators.
pub proof fn lemma_catalog_refuses_other_kinds(j: JsonView, actual: Seq<char>)
    requires
        j matches JsonView::Object(ms) && distinct_keys(ms) && member(ms, "type"@) == Some(
            JsonView::String(actual),
        ),
        actual != CATALOG_TYPE@,
    ensures
        CatalogView::from_json(j) == Err::<CatalogView, ErrorView>(
            ErrorView::InvalidTypeField { expected: CATALOG_TYPE@, actual },
        ),
{
}

/// An object with the discriminator of another kind is not read as a
/// collection: the failure names both discriminators.
pub proof fn lemma_collection_refuses_other_kinds(j: JsonView, actual: Seq<char>)
    requires
        j matches JsonView::Object(ms) && distinct_keys(ms) && member(ms, "type"@) == Some(
            JsonView::String(actual),
        ),
        actual != COLLECTION_TYPE@,
    ensures
        CollectionView::from_json(j) == Err::<CollectionView, ErrorView>(
            ErrorView::InvalidTypeField { expected: COLLECTION_TYPE@, actual },
        ),
{
}

/// A document whose discriminator was changed is not written: the failure
/// names the discriminator of its kind and the one that it has.
pub proof fn lemma_changed_kind_is_not_written(v: DocumentView)
    ensures
        v matches DocumentView::Item(x) ==> (x.kind != ITEM_TYPE@ ==> v.to_json() == Err::<
            JsonView,
            ErrorView,
        >(ErrorView::InvalidTypeField { expected: ITEM_TYPE@, actual: x.kind })),
        v matches DocumentView::Catalog(c) ==> (c.kind != CATALOG_TYPE@ ==> v.to_json() == Err::<
            JsonView,
            ErrorView,
        >(ErrorView::InvalidTypeField { expected: CATALOG_TYPE@, actual: c.kind })),
        v matches DocumentView::Collection(c) ==> (c.kind != COLLECTION_TYPE@ ==> v.to_json()
            == Err::<JsonView, ErrorView>(
            ErrorView::InvalidTypeField { expected: COLLECTION_TYPE@, actual: c.kind },
        )),
{
}

/// An array is read as a page of items, and as nothing else: it is read
/// where every item of it is, and what is read holds those items.
pub proof fn lemma_array_is_read_as_items(j: JsonView)
    requires
        j is Array,
    ensures
        DocumentView::from_json(j) is Ok <==> decode_all(
            j->Array_0,
            crate::document::item_decoder(),
        ) is Ok,
        DocumentView::from_json(j) matches Ok(v) ==> v == DocumentView::ItemCollection(
            ItemCollectionView {
                items: decode_all(j->Array_0, crate::document::item_decoder())->Ok_0,
                href: None,
            },
        ),
{
}

/// An object is read as the kind that its discriminator names: with an
/// item's as an item, with a catalog's as a catalog, with a collection's
/// as a collection, and with any other not at all.
pub proof fn lemma_object_is_read_by_kind(j: JsonView, kind: Seq<char>)
    requires
        j matches JsonView::Object(ms) && distinct_keys(ms) && member(ms, "type"@) == Some(
            JsonView::String(kind),
        ),
    ensures
        kind == ITEM_TYPE@ ==> DocumentView::from_json(j) == (match ItemView::from_json(j) {
            Ok(x) => Ok(DocumentView::Item(x)),
            Err(e) => Err(e),
        }),
        kind == CATALOG_TYPE@ ==> DocumentView::from_json(j) == (match CatalogView::from_json(j) {
            Ok(c) => Ok(DocumentView::Catalog(c)),
            Err(e) => Err(e),
        }),
        kind == COLLECTION_TYPE@ ==> DocumentView::from_json(j) == (match CollectionView::from_json(
            j,
        ) {
            Ok(c) => Ok(DocumentView::Collection(c)),
            Err(e) => Err(e),
        }),
        kind != ITEM_TYPE@ && kind != CATALOG_TYPE@ && kind != COLLECTION_TYPE@
            ==> DocumentView::from_json(j) == Err::<DocumentView, ErrorView>(
            ErrorView::UnknownType(kind),
        ),
{
    lemma_kinds();
}

/// An object without a discriminator is not read: the failure names the
/// member that is missing.
pub proof fn lemma_missing_kind_is_refused(j: JsonView)
    requires
        j matches JsonView::Object(ms) && distinct_keys(ms) && member(ms, "type"@) is None,
    ensures
        DocumentView::from_json(j) == Err::<DocumentView, ErrorView>(
            ErrorView::MissingField("type"@),
        ),
{
}

/// An href that is absolute stands for itself, wherever the document is.
pub proof fn lemma_absolute_href_is_kept(base: Option<Seq<char>>, href: Seq<char>)
    requires
        url_of_text(href) is Some || is_absolute_path(href),
    ensures
        resolution(base, href) == Ok::<Seq<char>, ErrorView>(href),
{
}

/// An href that is relative cannot be resolved for a document that does
/// not know where it came from.
pub proof fn lemma_relative_href_needs_location(href: Seq<char>)
    requires
        url_of_text(href) is None,
        !is_absolute_path(href),
    ensures
        resolution(None, href) == Err::<Seq<char>, ErrorView>(ErrorView::NoHref),
{
}

/// Once `.` and `..` have been followed, none of them is left.
pub proof fn lemma_followed_segments_hold_no_dots(segments: Seq<Seq<char>>)
    ensures
        forall|i: int|
            0 <= i < normal(segments).len() ==> (#[trigger] normal(segments)[i]) != here()
                && normal(segments)[i] != above(),
        normal(segments).len() <= segments.len(),
    decreases segments.len(),
{
    if segments.len() > 0 {
        lemma_followed_segments_hold_no_dots(segments.drop_last());
    }
}

/// What a reference is resolved to against a path starts at the root: it
/// is absolute.
pub proof fn lemma_joined_path_starts_at_root(base: Seq<char>, reference: Seq<char>)
    ensures
        is_absolute_path(join_path(base, reference)),
{
}

/// A URL of the web is not fetched by a caller that cannot fetch from the
/// web: it is refused before anything is fetched.
pub proof fn lemma_web_needs_network(href: Seq<char>, url: UrlView)
    requires
        crate::href::is_web_scheme(url.scheme),
    ensures
        located(href, Some(url), false) == Err::<LocationView, ErrorView>(
            ErrorView::UnsupportedLocation(href),
        ),
        located(href, Some(url), true) == Ok::<LocationView, ErrorView>(
            LocationView::Url(url.text),
        ),
{
}

} // verus!
