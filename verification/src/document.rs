//! Documents of any kind: what is read when the kind is not known ahead of
//! parsing.

use crate::catalog::{
    catalog_fields, lemma_catalog_fields, lemma_catalog_known_members, lemma_catalog_round_trip,
    Catalog, CatalogView,
};
use crate::collection::{
    collection_fields, lemma_collection_fields, lemma_collection_known_members,
    lemma_collection_round_trip, Collection, CollectionView,
};
use crate::error::{Error, ErrorView};
use crate::field::{
    decode_all, lemma_decode_all_each, lemma_decode_all_prefix, lemma_decode_all_push,
    read_string, required_string,
};
use crate::href::Href;
use crate::item::{
    item_fields, lemma_item_fields, lemma_item_from_json_valid, lemma_item_known_members,
    lemma_item_round_trip, Item, ItemView,
};
use crate::json::{
    distinct_keys, has_distinct_keys, lemma_known_then_rest, Json, JsonView,
};
use crate::kind::{CATALOG_TYPE, COLLECTION_TYPE, ITEM_TYPE};
use crate::text_set::TextSet;
use vstd::prelude::*;

verus! {

broadcast use crate::json::group_json_view;

/// The length and the first letter of each discriminator: enough to tell
/// any two of them apart.
pub proof fn lemma_kinds()
    ensures
        ITEM_TYPE@.len() == 7 && ITEM_TYPE@[0] == 'F',
        CATALOG_TYPE@.len() == 7 && CATALOG_TYPE@[0] == 'C',
        COLLECTION_TYPE@.len() == 10 && COLLECTION_TYPE@[0] == 'C',
{
    reveal_strlit("Feature");
    reveal_strlit("Catalog");
    reveal_strlit("Collection");
}

/// Reading an item, as a function.
pub open spec fn item_decoder() -> spec_fn(JsonView) -> Result<ItemView, ErrorView> {
    |j: JsonView| ItemView::from_json(j)
}

/// Every item is valid.
pub open spec fn items_valid(items: Seq<ItemView>) -> bool {
    forall|i: int| 0 <= i < items.len() ==> (#[trigger] items[i]).is_valid()
}

/// The items without the memory of where they came from.
pub open spec fn items_without_href(items: Seq<ItemView>) -> Seq<ItemView> {
    Seq::new(items.len(), |i: int| items[i].without_href())
}

/// The JSON of every item; the first item that cannot be written decides.
pub open spec fn encode_items(items: Seq<ItemView>) -> Result<Seq<JsonView>, ErrorView>
    decreases items.len(),
{
    if items.len() == 0 {
        Ok(Seq::empty())
    } else {
        match encode_items(items.drop_last()) {
            Err(e) => Err(e),
            Ok(js) => match items.last().to_json() {
                Err(e) => Err(e),
                Ok(j) => Ok(js.push(j)),
            },
        }
    }
}

pub proof fn lemma_encode_items_push(items: Seq<ItemView>, item: ItemView)
    ensures
        encode_items(items.push(item)) == (match encode_items(items) {
            Err(e) => Err(e),
            Ok(js) => match item.to_json() {
                Err(e) => Err(e),
                Ok(j) => Ok(js.push(j)),
            },
        }),
{
    assert(items.push(item).drop_last() =~= items);
}

/// A failure in a prefix is the failure of the whole list.
pub proof fn lemma_encode_items_prefix(items: Seq<ItemView>, k: int)
    requires
        0 <= k <= items.len(),
        encode_items(items.take(k)) is Err,
    ensures
        encode_items(items) == encode_items(items.take(k)),
    decreases items.len() - k,
{
    if k < items.len() {
        assert(items.take(k + 1).drop_last() =~= items.take(k));
        lemma_encode_items_prefix(items, k + 1);
    } else {
        assert(items.take(k) =~= items);
    }
}

/// Valid items can be written, and read back they are the same items, but
/// for the memory of where they came from.
pub proof fn lemma_items_round_trip(items: Seq<ItemView>)
    requires
        items_valid(items),
    ensures
        encode_items(items) is Ok,
        decode_all(encode_items(items)->Ok_0, item_decoder()) == Ok::<Seq<ItemView>, ErrorView>(
            items_without_href(items),
        ),
    decreases items.len(),
{
    if items.len() == 0 {
        assert(items_without_href(items) =~= Seq::empty());
    } else {
        let p = items.drop_last();
        assert forall|i: int| 0 <= i < p.len() implies (#[trigger] p[i]).is_valid() by {
            assert(p[i] == items[i]);
        }
        lemma_items_round_trip(p);
        assert(items[items.len() - 1].is_valid());
        lemma_item_round_trip(items.last());
        let js = encode_items(p)->Ok_0;
        let j = items.last().to_json()->Ok_0;
        lemma_decode_all_push(js, j, item_decoder());
        assert(items_without_href(p).push(items.last().without_href()) =~= items_without_href(
            items,
        ));
    }
}

/// What is read is valid and knows no location.
pub proof fn lemma_items_from_json_valid(js: Seq<JsonView>)
    ensures
        decode_all(js, item_decoder()) matches Ok(items) ==> items_valid(items)
            && items_without_href(items) == items,
{
    assert forall|j: JsonView| (#[trigger] item_decoder()(j)) matches Ok(x) ==> x.is_valid()
        && x.href is None by {
        lemma_item_from_json_valid(j);
    }
    lemma_decode_all_each(js, item_decoder(), |x: ItemView| x.is_valid() && x.href is None);
    if decode_all(js, item_decoder()) is Ok {
        let items = decode_all(js, item_decoder())->Ok_0;
        assert forall|i: int| 0 <= i < items.len() implies items_without_href(items)[i]
            == items[i] by {
            assert(items[i].href is None);
        }
        assert(items_without_href(items) =~= items);
    }
}

/// A page of items, as a feed of search results holds them.
#[derive(Debug, PartialEq)]
pub struct ItemCollection {
    /// The items, in order.
    pub items: Vec<Item>,
    /// Where the page was read from. It is not written.
    pub href: Option<String>,
}

/// The mathematical model of an [`ItemCollection`].
pub struct ItemCollectionView {
    pub items: Seq<ItemView>,
    pub href: Option<Seq<char>>,
}

impl DeepView for ItemCollection {
    type V = ItemCollectionView;

    open spec fn deep_view(&self) -> ItemCollectionView {
        ItemCollectionView { items: self.items.deep_view(), href: self.href.deep_view() }
    }
}

impl View for ItemCollection {
    type V = ItemCollectionView;

    open spec fn view(&self) -> ItemCollectionView {
        self.deep_view()
    }
}

/// A document of one of the known kinds.
#[derive(Debug, PartialEq)]
pub enum Document {
    Item(Item),
    Catalog(Catalog),
    Collection(Collection),
    ItemCollection(ItemCollection),
}

/// The mathematical model of a [`Document`].
pub enum DocumentView {
    Item(ItemView),
    Catalog(CatalogView),
    Collection(CollectionView),
    ItemCollection(ItemCollectionView),
}

impl DeepView for Document {
    type V = DocumentView;

    open spec fn deep_view(&self) -> DocumentView {
        match self {
            Document::Item(x) => DocumentView::Item(x@),
            Document::Catalog(c) => DocumentView::Catalog(c@),
            Document::Collection(c) => DocumentView::Collection(c@),
            Document::ItemCollection(p) => DocumentView::ItemCollection(p@),
        }
    }
}

impl View for Document {
    type V = DocumentView;

    open spec fn view(&self) -> DocumentView {
        self.deep_view()
    }
}

impl DocumentView {
    /// The document is valid for its kind.
    pub open spec fn is_valid(self) -> bool {
        match self {
            DocumentView::Item(x) => x.is_valid(),
            DocumentView::Catalog(c) => c.is_valid(),
            DocumentView::Collection(c) => c.is_valid(),
            DocumentView::ItemCollection(p) => items_valid(p.items),
        }
    }

    /// The location that the document remembers.
    pub open spec fn href(self) -> Option<Seq<char>> {
        match self {
            DocumentView::Item(x) => x.href,
            DocumentView::Catalog(c) => c.href,
            DocumentView::Collection(c) => c.href,
            DocumentView::ItemCollection(p) => p.href,
        }
    }

    /// The document with `href` as the location that it remembers.
    pub open spec fn with_href(self, href: Option<Seq<char>>) -> DocumentView {
        match self {
            DocumentView::Item(x) => DocumentView::Item(ItemView { href, ..x }),
            DocumentView::Catalog(c) => DocumentView::Catalog(CatalogView { href, ..c }),
            DocumentView::Collection(c) => DocumentView::Collection(CollectionView { href, ..c }),
            DocumentView::ItemCollection(p) => DocumentView::ItemCollection(
                ItemCollectionView { href, ..p },
            ),
        }
    }

    /// The document as it is read back once written: neither it nor the
    /// items of a page remember where they came from.
    pub open spec fn without_href(self) -> DocumentView {
        match self {
            DocumentView::Item(x) => DocumentView::Item(x.without_href()),
            DocumentView::Catalog(c) => DocumentView::Catalog(c.without_href()),
            DocumentView::Collection(c) => DocumentView::Collection(c.without_href()),
            DocumentView::ItemCollection(p) => DocumentView::ItemCollection(
                ItemCollectionView { items: items_without_href(p.items), href: None },
            ),
        }
    }

    /// The JSON that the document is written as, each kind in its own
    /// shape, or why it cannot be written.
    pub open spec fn to_json(self) -> Result<JsonView, ErrorView> {
        match self {
            DocumentView::Item(x) => x.to_json(),
            DocumentView::Catalog(c) => c.to_json(),
            DocumentView::Collection(c) => c.to_json(),
            DocumentView::ItemCollection(p) => match encode_items(p.items) {
                Err(e) => Err(e),
                Ok(js) => Ok(JsonView::Array(js)),
            },
        }
    }

    /// The document that a JSON value is read as, or why it is none. An
    /// array is a page of items. An object is what its discriminator says.
    pub open spec fn from_json(j: JsonView) -> Result<DocumentView, ErrorView> {
        match j {
            JsonView::Array(items) => match decode_all(items, item_decoder()) {
                Err(e) => Err(e),
                Ok(xs) => Ok(DocumentView::ItemCollection(ItemCollectionView { items: xs, href: None })),
            },
            JsonView::Object(ms) => if !distinct_keys(ms) {
                Err(ErrorView::DuplicateField)
            } else {
                match required_string(ms, "type"@) {
                    Err(e) => Err(e),
                    Ok(kind) => if kind == ITEM_TYPE@ {
                        match ItemView::from_json(j) {
                            Err(e) => Err(e),
                            Ok(x) => Ok(DocumentView::Item(x)),
                        }
                    } else if kind == CATALOG_TYPE@ {
                        match CatalogView::from_json(j) {
                            Err(e) => Err(e),
                            Ok(c) => Ok(DocumentView::Catalog(c)),
                        }
                    } else if kind == COLLECTION_TYPE@ {
                        match CollectionView::from_json(j) {
                            Err(e) => Err(e),
                            Ok(c) => Ok(DocumentView::Collection(c)),
                        }
                    } else {
                        Err(ErrorView::UnknownType(kind))
                    },
                }
            },
            _ => Err(ErrorView::NotAnObject),
        }
    }
}

/// A valid document of any kind can be written, and read back it is the
/// same document of the same kind, but for the memory of where it came
/// from, which is not written.
pub proof fn lemma_document_round_trip(v: DocumentView)
    requires
        v.is_valid(),
    ensures
        v.to_json() is Ok,
        DocumentView::from_json(v.to_json()->Ok_0) == Ok::<DocumentView, ErrorView>(v.without_href()),
{
    lemma_kinds();
    match v {
        DocumentView::Item(x) => {
            lemma_item_round_trip(x);
            lemma_item_known_members(x);
            lemma_item_fields();
            lemma_known_then_rest(x.known_members(), x.additional_fields, item_fields());
        },
        DocumentView::Catalog(c) => {
            lemma_catalog_round_trip(c);
            lemma_catalog_known_members(c);
            lemma_catalog_fields();
            lemma_known_then_rest(c.known_members(), c.additional_fields, catalog_fields());
        },
        DocumentView::Collection(c) => {
            lemma_collection_round_trip(c);
            lemma_collection_known_members(c);
            lemma_collection_fields();
            lemma_known_then_rest(c.known_members(), c.additional_fields, collection_fields());
        },
        DocumentView::ItemCollection(p) => {
            lemma_items_round_trip(p.items);
        },
    }
}

/// What is read is valid and knows no location.
pub proof fn lemma_document_from_json_valid(j: JsonView)
    ensures
        DocumentView::from_json(j) matches Ok(v) ==> v.is_valid() && v.href() is None
            && v.without_href() == v,
{
    match j {
        JsonView::Array(items) => {
            lemma_items_from_json_valid(items);
        },
        JsonView::Object(ms) => {
            lemma_item_from_json_valid(j);
            crate::catalog::lemma_catalog_from_json_valid(j);
            crate::collection::lemma_collection_from_json_valid(j);
        },
        _ => {},
    }
}

impl Clone for ItemCollection {
    fn clone(&self) -> (r: Self)
        ensures
            r@ == self@,
    {
        ItemCollection { items: clone_items(&self.items), href: crate::field::clone_text(&self.href) }
    }
}

impl Clone for Document {
    fn clone(&self) -> (r: Self)
        ensures
            r@ == self@,
    {
        match self {
            Document::Item(x) => Document::Item(x.clone()),
            Document::Catalog(c) => Document::Catalog(c.clone()),
            Document::Collection(c) => Document::Collection(c.clone()),
            Document::ItemCollection(p) => Document::ItemCollection(p.clone()),
        }
    }
}

/// Copies items.
pub fn clone_items(items: &Vec<Item>) -> (r: Vec<Item>)
    ensures
        r.deep_view() == items.deep_view(),
{
    let mut out: Vec<Item> = Vec::new();
    let mut i: usize = 0;
    while i < items.len()
        invariant
            i <= items.len(),
            out.len() == i,
            forall|k: int| 0 <= k < i ==> out@[k]@ == items@[k]@,
        decreases items.len() - i,
    {
        out.push(items[i].clone());
        i += 1;
    }
    assert(out.deep_view() =~= items.deep_view());
    out
}

/// Reads the items of an array: every one an item.
pub fn items_from_json(js: &Vec<Json>) -> (r: Result<Vec<Item>, Error>)
    ensures
        match r {
            Ok(items) => decode_all(js.deep_view(), item_decoder()) == Ok::<
                Seq<ItemView>,
                ErrorView,
            >(items.deep_view()) && items_valid(items.deep_view()),
            Err(e) => decode_all(js.deep_view(), item_decoder()) == Err::<
                Seq<ItemView>,
                ErrorView,
            >(e@),
        },
{
    let ghost jv = js.deep_view();
    let mut out: Vec<Item> = Vec::new();
    let mut i: usize = 0;
    assert(out.deep_view() =~= Seq::empty());
    assert(jv.take(0) =~= Seq::empty());
    while i < js.len()
        invariant
            i <= js.len(),
            jv == js.deep_view(),
            decode_all(jv.take(i as int), item_decoder()) == Ok::<Seq<ItemView>, ErrorView>(
                out.deep_view(),
            ),
        decreases js.len() - i,
    {
        proof {
            assert(jv.take(i + 1) =~= jv.take(i as int).push(jv[i as int]));
            lemma_decode_all_push(jv.take(i as int), jv[i as int], item_decoder());
        }
        match Item::from_json(&js[i]) {
            Ok(x) => {
                let ghost before = out.deep_view();
                out.push(x);
                assert(out.deep_view() =~= before.push(x@));
            },
            Err(e) => {
                proof {
                    lemma_decode_all_prefix(jv, i + 1, item_decoder());
                }
                return Err(e);
            },
        }
        i += 1;
    }
    proof {
        assert(jv.take(i as int) =~= jv);
        lemma_items_from_json_valid(jv);
    }
    Ok(out)
}

/// Writes items as JSON, each as an item is written; the first item that
/// cannot be written decides.
pub fn items_to_json(items: &Vec<Item>) -> (r: Result<Vec<Json>, Error>)
    ensures
        match r {
            Ok(js) => encode_items(items.deep_view()) == Ok::<Seq<JsonView>, ErrorView>(
                js.deep_view(),
            ),
            Err(e) => encode_items(items.deep_view()) == Err::<Seq<JsonView>, ErrorView>(e@),
        },
{
    let ghost xs = items.deep_view();
    let mut out: Vec<Json> = Vec::new();
    let mut i: usize = 0;
    assert(out.deep_view() =~= Seq::empty());
    assert(xs.take(0) =~= Seq::empty());
    while i < items.len()
        invariant
            i <= items.len(),
            xs == items.deep_view(),
            encode_items(xs.take(i as int)) == Ok::<Seq<JsonView>, ErrorView>(out.deep_view()),
        decreases items.len() - i,
    {
        proof {
            assert(xs.take(i + 1) =~= xs.take(i as int).push(xs[i as int]));
            lemma_encode_items_push(xs.take(i as int), xs[i as int]);
        }
        match items[i].to_json() {
            Ok(j) => {
                let ghost before = out.deep_view();
                let ghost jv = j@;
                out.push(j);
                assert(out.deep_view() =~= before.push(jv));
            },
            Err(e) => {
                proof {
                    lemma_encode_items_prefix(xs, i + 1);
                }
                return Err(e);
            },
        }
        i += 1;
    }
    proof {
        assert(xs.take(i as int) =~= xs);
    }
    Ok(out)
}

impl ItemCollection {
    /// A page of the given items. It knows no location.
    pub fn new(items: Vec<Item>) -> (p: ItemCollection)
        ensures
            p@ == (ItemCollectionView { items: items.deep_view(), href: None }),
    {
        ItemCollection { items, href: None }
    }
}

impl Document {
    /// The extensions that the document declares; a page of items declares
    /// none of its own.
    pub fn extensions(&self) -> (r: Option<&TextSet>)
        ensures
            match self@ {
                DocumentView::Item(x) => r matches Some(s) && s@ == x.extensions,
                DocumentView::Catalog(c) => r matches Some(s) && s@ == c.extensions,
                DocumentView::Collection(c) => r matches Some(s) && s@ == c.extensions,
                DocumentView::ItemCollection(_) => r is None,
            },
    {
        match self {
            Document::Item(x) => Some(&x.extensions),
            Document::Catalog(c) => Some(&c.extensions),
            Document::Collection(c) => Some(&c.extensions),
            Document::ItemCollection(_) => None,
        }
    }

    /// Writes the document as JSON, each kind in its own shape: an item, a
    /// catalog or a collection as its object, a page of items as an array.
    /// This fails where a discriminator is no longer that of its kind.
    pub fn to_json(&self) -> (r: Result<Json, Error>)
        ensures
            match r {
                Ok(j) => self@.to_json() == Ok::<JsonView, ErrorView>(j@),
                Err(e) => self@.to_json() == Err::<JsonView, ErrorView>(e@),
            },
    {
        match self {
            Document::Item(x) => x.to_json(),
            Document::Catalog(c) => c.to_json(),
            Document::Collection(c) => c.to_json(),
            Document::ItemCollection(p) => match items_to_json(&p.items) {
                Ok(js) => Ok(Json::Array(js)),
                Err(e) => Err(e),
            },
        }
    }

    /// Reads a document of whatever kind the JSON value is. An array is
    /// read as a page of items. An object that holds no key twice is read
    /// as the kind that its `type` member names; one without that member,
    /// or with another value in it, is refused. What is read is valid and
    /// knows no location.
    pub fn from_json(j: &Json) -> (r: Result<Document, Error>)
        ensures
            match r {
                Ok(v) => DocumentView::from_json(j@) == Ok::<DocumentView, ErrorView>(v@) && v@.is_valid()
                    && v@.href() is None,
                Err(e) => DocumentView::from_json(j@) == Err::<DocumentView, ErrorView>(e@),
            },
    {
        proof {
            lemma_document_from_json_valid(j@);
        }
        match j {
            Json::Array(items) => match items_from_json(items) {
                Ok(items) => Ok(Document::ItemCollection(ItemCollection { items, href: None })),
                Err(e) => Err(e),
            },
            Json::Object(members) => {
                if !has_distinct_keys(members) {
                    return Err(Error::DuplicateField);
                }
                let kind = match read_string(members, "type") {
                    Ok(s) => s,
                    Err(e) => {
                        return Err(e);
                    },
                };
                if kind == ITEM_TYPE.to_owned() {
                    match Item::from_json(j) {
                        Ok(x) => Ok(Document::Item(x)),
                        Err(e) => Err(e),
                    }
                } else if kind == CATALOG_TYPE.to_owned() {
                    match Catalog::from_json(j) {
                        Ok(c) => Ok(Document::Catalog(c)),
                        Err(e) => Err(e),
                    }
                } else if kind == COLLECTION_TYPE.to_owned() {
                    match Collection::from_json(j) {
                        Ok(c) => Ok(Document::Collection(c)),
                        Err(e) => Err(e),
                    }
                } else {
                    Err(Error::UnknownType(kind))
                }
            },
            _ => Err(Error::NotAnObject),
        }
    }
}

impl Href for ItemCollection {
    open spec fn href_view(&self) -> Option<Seq<char>> {
        self@.href
    }

    fn href(&self) -> (r: Option<&str>) {
        match &self.href {
            Some(s) => Some(s.as_str()),
            None => None,
        }
    }

    fn set_href(&mut self, href: &str)
        ensures
            final(self)@ == (ItemCollectionView { href: Some(href@), ..old(self)@ }),
    {
        self.href = Some(href.to_owned());
    }
}

impl Href for Document {
    open spec fn href_view(&self) -> Option<Seq<char>> {
        self@.href()
    }

    fn href(&self) -> (r: Option<&str>) {
        match self {
            Document::Item(x) => x.href(),
            Document::Catalog(c) => c.href(),
            Document::Collection(c) => c.href(),
            Document::ItemCollection(p) => p.href(),
        }
    }

    fn set_href(&mut self, href: &str)
        ensures
            final(self)@ == old(self)@.with_href(Some(href@)),
    {
        match self {
            Document::Item(x) => {
                x.set_href(href);
            },
            Document::Catalog(c) => {
                c.set_href(href);
            },
            Document::Collection(c) => {
                c.set_href(href);
            },
            Document::ItemCollection(p) => {
                p.set_href(href);
            },
        }
    }
}

/// Tells whether every item is valid.
pub fn items_are_valid(items: &Vec<Item>) -> (r: bool)
    ensures
        r == items_valid(items.deep_view()),
{
    let ghost xs = items.deep_view();
    let mut i: usize = 0;
    while i < items.len()
        invariant
            i <= items.len(),
            xs == items.deep_view(),
            forall|k: int| 0 <= k < i ==> (#[trigger] xs[k]).is_valid(),
        decreases items.len() - i,
    {
        if !items[i].is_valid() {
            assert(!xs[i as int].is_valid());
            return false;
        }
        i += 1;
    }
    true
}

impl Document {
    /// Tells whether the document is valid for its kind: whether it can be
    /// written and read back as it is, but for its location.
    pub fn is_valid(&self) -> (r: bool)
        ensures
            r == self@.is_valid(),
    {
        match self {
            Document::Item(x) => x.is_valid(),
            Document::Catalog(c) => c.is_valid(),
            Document::Collection(c) => c.is_valid(),
            Document::ItemCollection(p) => items_are_valid(&p.items),
        }
    }
}

} // verus!
