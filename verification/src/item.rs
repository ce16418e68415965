//! Items: the atomic documents, each describing one spatiotemporal asset.

use crate::asset::{
    assets_are_valid, assets_from_json, assets_from_members, assets_to_json, assets_to_members, assets_valid,
    clone_assets, lemma_assets_from_members_valid, lemma_assets_round_trip, Asset, AssetsView,
};
use crate::error::{Error, ErrorView};
use crate::field::{
    clone_numbers, clone_text, decode_all, encode_all, lemma_names, lemma_numbers_round_trip,
    lemma_strings_round_trip, nullable_json, nullable_string_json, optional_numbers,
    optional_numbers_json, optional_object_value, optional_string, optional_string_json,
    push_member, push_members, push_optional_string, push_string, read_array, read_object,
    read_optional_numbers, read_optional_object_value, read_optional_string, read_string,
    read_string_list, required_array, required_object, required_string, string_list,
    strings_json, unless_empty, numbers_to_json,
};
use crate::href::Href;
use crate::json::{
    can_stand_beside, clone_members, distinct_keys, has_distinct_keys, keys_outside, keys_within,
    lemma_known_then_rest, lemma_without_keys, member, put, rest, without, Json, JsonView,
    Members, Number,
};
use crate::kind::{read_type, serialize_type, type_field, ITEM_TYPE, STAC_VERSION};
use crate::link::{
    clone_links, links_are_valid, lemma_links_from_json_valid, lemma_links_round_trip, link_decoder, link_encoder,
    links_from_json, links_to_json, links_valid, Link, LinkView,
};
use crate::text_set::{collect, lemma_collect, lemma_collect_set, TextSet};
use vstd::prelude::*;

verus! {

broadcast use crate::json::group_json_view;

/// What an item says of its asset: when it was taken, and whatever else
/// the item's author wrote down.
#[derive(Debug, PartialEq)]
pub struct Properties {
    /// The moment that the asset stands for, where it is a single one.
    pub datetime: Option<String>,
    /// Every other member of the `properties` object, kept verbatim.
    pub additional_fields: Vec<(String, Json)>,
}

/// The mathematical model of [`Properties`].
pub struct PropertiesView {
    pub datetime: Option<Seq<char>>,
    pub additional_fields: Members,
}

impl DeepView for Properties {
    type V = PropertiesView;

    open spec fn deep_view(&self) -> PropertiesView {
        PropertiesView {
            datetime: self.datetime.deep_view(),
            additional_fields: self.additional_fields.deep_view(),
        }
    }
}

impl View for Properties {
    type V = PropertiesView;

    open spec fn view(&self) -> PropertiesView {
        self.deep_view()
    }
}

/// The names of the members that a `properties` object gives a meaning to.
pub open spec fn properties_fields() -> Seq<Seq<char>> {
    seq!["datetime"@]
}

impl PropertiesView {
    /// The additional fields form a mapping, and none of them shadows the
    /// member that the properties themselves write.
    pub open spec fn is_valid(self) -> bool {
        &&& distinct_keys(self.additional_fields)
        &&& keys_outside(self.additional_fields, properties_fields())
    }

    /// The member that the typed field is written as.
    pub open spec fn known_members(self) -> Members {
        Seq::<(Seq<char>, JsonView)>::empty().push(
            ("datetime"@, nullable_string_json(self.datetime)),
        )
    }

    /// The members that the properties are written as.
    pub open spec fn to_members(self) -> Members {
        self.known_members() + self.additional_fields
    }

    /// The properties that the members of an object are read as, or why
    /// they are none.
    pub open spec fn from_members(ms: Members) -> Result<PropertiesView, ErrorView> {
        if !distinct_keys(ms) {
            Err(ErrorView::DuplicateField)
        } else if optional_string(ms, "datetime"@) is Err {
            Err(optional_string(ms, "datetime"@)->Err_0)
        } else {
            Ok(
                PropertiesView {
                    datetime: optional_string(ms, "datetime"@)->Ok_0,
                    additional_fields: without(ms, properties_fields()),
                },
            )
        }
    }
}

/// Valid properties that are written and read back are the same
/// properties.
pub proof fn lemma_properties_round_trip(p: PropertiesView)
    requires
        p.is_valid(),
    ensures
        PropertiesView::from_members(p.to_members()) == Ok::<PropertiesView, ErrorView>(p),
{
    broadcast use {
        crate::json::lemma_member_push,
        crate::json::lemma_has_key_push,
        crate::json::lemma_distinct_push,
        crate::json::lemma_keys_within_push,
    };

    assert(properties_fields()[0] == "datetime"@);
    lemma_known_then_rest(p.known_members(), p.additional_fields, properties_fields());
}

/// What is read is valid.
pub proof fn lemma_properties_from_members_valid(ms: Members)
    ensures
        PropertiesView::from_members(ms) matches Ok(p) ==> p.is_valid(),
{
    lemma_without_keys(ms, properties_fields());
}

impl Clone for Properties {
    fn clone(&self) -> (r: Self)
        ensures
            r@ == self@,
    {
        Properties {
            datetime: clone_text(&self.datetime),
            additional_fields: clone_members(&self.additional_fields),
        }
    }
}

impl Properties {
    /// Properties that say nothing.
    pub fn new() -> (p: Properties)
        ensures
            p@ == (PropertiesView { datetime: None, additional_fields: Seq::empty() }),
            p@.is_valid(),
    {
        let p = Properties { datetime: None, additional_fields: Vec::new() };
        assert(p.additional_fields.deep_view() =~= Seq::empty());
        p
    }

    /// Writes the properties as the members of a JSON object. `datetime`
    /// is written as null where there is none.
    pub fn to_members(&self) -> (r: Vec<(String, Json)>)
        ensures
            r.deep_view() == self@.to_members(),
    {
        let mut members: Vec<(String, Json)> = Vec::new();
        assert(members.deep_view() =~= Seq::empty());
        let datetime = match &self.datetime {
            Some(s) => Json::String(s.clone()),
            None => Json::Null,
        };
        push_member(&mut members, "datetime", datetime);
        push_members(&mut members, &self.additional_fields);
        members
    }

    /// Reads properties from the members of a JSON object, which has to
    /// hold no key twice; `datetime` is a string where it is there and not
    /// null.
    pub fn from_members(members: &Vec<(String, Json)>) -> (r: Result<Properties, Error>)
        ensures
            match r {
                Ok(p) => PropertiesView::from_members(members.deep_view()) == Ok::<
                    PropertiesView,
                    ErrorView,
                >(p@) && p@.is_valid(),
                Err(e) => PropertiesView::from_members(members.deep_view()) == Err::<
                    PropertiesView,
                    ErrorView,
                >(e@),
            },
    {
        if !has_distinct_keys(members) {
            return Err(Error::DuplicateField);
        }
        let datetime = match read_optional_string(members, "datetime") {
            Ok(s) => s,
            Err(e) => {
                return Err(e);
            },
        };
        let additional_fields = rest(members, &properties_field_names());
        proof {
            lemma_properties_from_members_valid(members.deep_view());
        }
        Ok(Properties { datetime, additional_fields })
    }
}

/// A document that describes one spatiotemporal asset: a GeoJSON feature
/// with links and assets.
#[derive(Debug, PartialEq)]
pub struct Item {
    /// The discriminator. It has to stay `"Feature"` for the item to be
    /// written.
    pub kind: String,
    /// The version of the STAC specification that the item follows.
    pub version: String,
    /// The extensions that the item declares.
    pub extensions: TextSet,
    /// The identifier.
    pub id: String,
    /// The footprint, as a GeoJSON geometry object.
    pub geometry: Option<Json>,
    /// The bounding box of the footprint.
    pub bbox: Option<Vec<Number>>,
    /// What the item says of its asset.
    pub properties: Properties,
    /// The links to other documents.
    pub links: Vec<Link>,
    /// The files that belong to the item, under their names.
    pub assets: Vec<(String, Asset)>,
    /// The identifier of the collection that the item belongs to.
    pub collection: Option<String>,
    /// Every other member of the item's JSON object, kept verbatim.
    pub additional_fields: Vec<(String, Json)>,
    /// Where the item was read from. It is not written.
    pub href: Option<String>,
}

/// The mathematical model of an [`Item`].
pub struct ItemView {
    pub kind: Seq<char>,
    pub version: Seq<char>,
    pub extensions: Seq<Seq<char>>,
    pub id: Seq<char>,
    pub geometry: Option<JsonView>,
    pub bbox: Option<Seq<Seq<char>>>,
    pub properties: PropertiesView,
    pub links: Seq<LinkView>,
    pub assets: AssetsView,
    pub collection: Option<Seq<char>>,
    pub additional_fields: Members,
    pub href: Option<Seq<char>>,
}

impl DeepView for Item {
    type V = ItemView;

    open spec fn deep_view(&self) -> ItemView {
        ItemView {
            kind: self.kind@,
            version: self.version@,
            extensions: self.extensions@,
            id: self.id@,
            geometry: self.geometry.deep_view(),
            bbox: self.bbox.deep_view(),
            properties: self.properties@,
            links: self.links.deep_view(),
            assets: self.assets.deep_view(),
            collection: self.collection.deep_view(),
            additional_fields: self.additional_fields.deep_view(),
            href: self.href.deep_view(),
        }
    }
}

impl View for Item {
    type V = ItemView;

    open spec fn view(&self) -> ItemView {
        self.deep_view()
    }
}

/// The names of the members that an item's JSON object gives a meaning to.
pub open spec fn item_fields() -> Seq<Seq<char>> {
    seq![
        "type"@,
        "stac_version"@,
        "stac_extensions"@,
        "id"@,
        "geometry"@,
        "bbox"@,
        "properties"@,
        "links"@,
        "assets"@,
        "collection"@,
    ]
}

impl ItemView {
    /// The discriminator is an item's, the extensions form a set, the
    /// geometry is an object where there is one, properties, links and
    /// assets are valid, the additional fields form a mapping, and none of
    /// them shadows a member that the item itself writes.
    pub open spec fn is_valid(self) -> bool {
        &&& self.kind == ITEM_TYPE@
        &&& self.extensions.no_duplicates()
        &&& (self.geometry matches Some(g) ==> g is Object)
        &&& self.properties.is_valid()
        &&& links_valid(self.links)
        &&& assets_valid(self.assets)
        &&& distinct_keys(self.additional_fields)
        &&& keys_outside(self.additional_fields, item_fields())
    }

    /// The item without the memory of where it came from.
    pub open spec fn without_href(self) -> ItemView {
        ItemView { href: None, ..self }
    }

    /// The members that the typed fields are written as.
    pub open spec fn known_members(self) -> Members {
        put(
            put(
                put(
                    Seq::<(Seq<char>, JsonView)>::empty().push(
                        ("type"@, JsonView::String(self.kind)),
                    ).push(("stac_version"@, JsonView::String(self.version))),
                    "stac_extensions"@,
                    unless_empty(self.extensions, strings_json(self.extensions)),
                ).push(("id"@, JsonView::String(self.id))).push(
                    ("geometry"@, nullable_json(self.geometry)),
                ),
                "bbox"@,
                optional_numbers_json(self.bbox),
            ).push(("properties"@, JsonView::Object(self.properties.to_members()))).push(
                ("links"@, JsonView::Array(encode_all(self.links, link_encoder()))),
            ).push(("assets"@, JsonView::Object(assets_to_members(self.assets)))),
            "collection"@,
            optional_string_json(self.collection),
        )
    }

    /// The JSON that the item is written as, or why it cannot be written.
    pub open spec fn to_json(self) -> Result<JsonView, ErrorView> {
        if self.kind != ITEM_TYPE@ {
            Err(ErrorView::InvalidTypeField { expected: ITEM_TYPE@, actual: self.kind })
        } else {
            Ok(JsonView::Object(self.known_members() + self.additional_fields))
        }
    }

    /// The item that a JSON value is read as, or why it is none.
    pub open spec fn from_json(j: JsonView) -> Result<ItemView, ErrorView> {
        if !(j is Object) {
            Err(ErrorView::NotAnObject)
        } else {
            let ms = j->Object_0;
            if !distinct_keys(ms) {
                Err(ErrorView::DuplicateField)
            } else if type_field(ms, ITEM_TYPE@) is Err {
                Err(type_field(ms, ITEM_TYPE@)->Err_0)
            } else if required_string(ms, "stac_version"@) is Err {
                Err(required_string(ms, "stac_version"@)->Err_0)
            } else if string_list(ms, "stac_extensions"@) is Err {
                Err(string_list(ms, "stac_extensions"@)->Err_0)
            } else if required_string(ms, "id"@) is Err {
                Err(required_string(ms, "id"@)->Err_0)
            } else if optional_object_value(ms, "geometry"@) is Err {
                Err(optional_object_value(ms, "geometry"@)->Err_0)
            } else if optional_numbers(ms, "bbox"@) is Err {
                Err(optional_numbers(ms, "bbox"@)->Err_0)
            } else if required_object(ms, "properties"@) is Err {
                Err(required_object(ms, "properties"@)->Err_0)
            } else if PropertiesView::from_members(required_object(ms, "properties"@)->Ok_0)
                is Err {
                Err(PropertiesView::from_members(required_object(ms, "properties"@)->Ok_0)->Err_0)
            } else if required_array(ms, "links"@) is Err {
                Err(required_array(ms, "links"@)->Err_0)
            } else if decode_all(required_array(ms, "links"@)->Ok_0, link_decoder()) is Err {
                Err(decode_all(required_array(ms, "links"@)->Ok_0, link_decoder())->Err_0)
            } else if required_object(ms, "assets"@) is Err {
                Err(required_object(ms, "assets"@)->Err_0)
            } else if assets_from_members(required_object(ms, "assets"@)->Ok_0) is Err {
                Err(assets_from_members(required_object(ms, "assets"@)->Ok_0)->Err_0)
            } else if optional_string(ms, "collection"@) is Err {
                Err(optional_string(ms, "collection"@)->Err_0)
            } else {
                Ok(
                    ItemView {
                        kind: type_field(ms, ITEM_TYPE@)->Ok_0,
                        version: required_string(ms, "stac_version"@)->Ok_0,
                        extensions: collect(string_list(ms, "stac_extensions"@)->Ok_0),
                        id: required_string(ms, "id"@)->Ok_0,
                        geometry: optional_object_value(ms, "geometry"@)->Ok_0,
                        bbox: optional_numbers(ms, "bbox"@)->Ok_0,
                        properties: PropertiesView::from_members(
                            required_object(ms, "properties"@)->Ok_0,
                        )->Ok_0,
                        links: decode_all(required_array(ms, "links"@)->Ok_0, link_decoder())->Ok_0,
                        assets: assets_from_members(required_object(ms, "assets"@)->Ok_0)->Ok_0,
                        collection: optional_string(ms, "collection"@)->Ok_0,
                        additional_fields: without(ms, item_fields()),
                        href: None,
                    },
                )
            }
        }
    }
}

/// Each name of `item_fields` is in it.
pub proof fn lemma_item_fields()
    ensures
        item_fields().contains("type"@),
        item_fields().contains("stac_version"@),
        item_fields().contains("stac_extensions"@),
        item_fields().contains("id"@),
        item_fields().contains("geometry"@),
        item_fields().contains("bbox"@),
        item_fields().contains("properties"@),
        item_fields().contains("links"@),
        item_fields().contains("assets"@),
        item_fields().contains("collection"@),
{
    assert(item_fields()[0] == "type"@);
    assert(item_fields()[1] == "stac_version"@);
    assert(item_fields()[2] == "stac_extensions"@);
    assert(item_fields()[3] == "id"@);
    assert(item_fields()[4] == "geometry"@);
    assert(item_fields()[5] == "bbox"@);
    assert(item_fields()[6] == "properties"@);
    assert(item_fields()[7] == "links"@);
    assert(item_fields()[8] == "assets"@);
    assert(item_fields()[9] == "collection"@);
}

/// What the known members of an item hold, whatever its optional fields
/// are.
pub proof fn lemma_item_known_members(x: ItemView)
    ensures
        distinct_keys(x.known_members()),
        keys_within(x.known_members(), item_fields()),
        member(x.known_members(), "type"@) == Some(JsonView::String(x.kind)),
        member(x.known_members(), "stac_version"@) == Some(JsonView::String(x.version)),
        member(x.known_members(), "stac_extensions"@) == unless_empty(
            x.extensions,
            strings_json(x.extensions),
        ),
        member(x.known_members(), "id"@) == Some(JsonView::String(x.id)),
        member(x.known_members(), "geometry"@) == Some(nullable_json(x.geometry)),
        member(x.known_members(), "bbox"@) == optional_numbers_json(x.bbox),
        member(x.known_members(), "properties"@) == Some(
            JsonView::Object(x.properties.to_members()),
        ),
        member(x.known_members(), "links"@) == Some(
            JsonView::Array(encode_all(x.links, link_encoder())),
        ),
        member(x.known_members(), "assets"@) == Some(
            JsonView::Object(assets_to_members(x.assets)),
        ),
        member(x.known_members(), "collection"@) == optional_string_json(x.collection),
{
    broadcast use {
        crate::json::lemma_member_push,
        crate::json::lemma_has_key_push,
        crate::json::lemma_distinct_push,
        crate::json::lemma_keys_within_push,
    };

    lemma_names();
    lemma_item_fields();
}

/// A valid item that is written and read back is the same item, but for
/// the memory of where it came from.
pub proof fn lemma_item_round_trip(x: ItemView)
    requires
        x.is_valid(),
    ensures
        x.to_json() is Ok,
        ItemView::from_json(x.to_json()->Ok_0) == Ok::<ItemView, ErrorView>(x.without_href()),
{
    lemma_item_known_members(x);
    lemma_item_fields();
    lemma_known_then_rest(x.known_members(), x.additional_fields, item_fields());
    lemma_strings_round_trip(x.extensions);
    lemma_collect_set(x.extensions);
    if x.extensions.len() == 0 {
        assert(x.extensions =~= Seq::empty());
    }
    if x.bbox is Some {
        lemma_numbers_round_trip(x.bbox->Some_0);
    }
    lemma_properties_round_trip(x.properties);
    lemma_links_round_trip(x.links);
    lemma_assets_round_trip(x.assets);
}

/// What is read is valid and knows no location.
pub proof fn lemma_item_from_json_valid(j: JsonView)
    ensures
        ItemView::from_json(j) matches Ok(x) ==> x.is_valid() && x.href is None,
{
    if j is Object {
        let ms = j->Object_0;
        lemma_without_keys(ms, item_fields());
        if string_list(ms, "stac_extensions"@) is Ok {
            lemma_collect(string_list(ms, "stac_extensions"@)->Ok_0);
        }
        if required_object(ms, "properties"@) is Ok {
            lemma_properties_from_members_valid(required_object(ms, "properties"@)->Ok_0);
        }
        if required_array(ms, "links"@) is Ok {
            lemma_links_from_json_valid(required_array(ms, "links"@)->Ok_0);
        }
        if required_object(ms, "assets"@) is Ok {
            lemma_assets_from_members_valid(required_object(ms, "assets"@)->Ok_0);
        }
    }
}

impl Clone for Item {
    fn clone(&self) -> (r: Self)
        ensures
            r@ == self@,
    {
        Item {
            kind: self.kind.clone(),
            version: self.version.clone(),
            extensions: self.extensions.clone(),
            id: self.id.clone(),
            geometry: match &self.geometry {
                Some(g) => Some(g.clone()),
                None => None,
            },
            bbox: match &self.bbox {
                Some(b) => Some(clone_numbers(b)),
                None => None,
            },
            properties: self.properties.clone(),
            links: clone_links(&self.links),
            assets: clone_assets(&self.assets),
            collection: clone_text(&self.collection),
            additional_fields: clone_members(&self.additional_fields),
            href: clone_text(&self.href),
        }
    }
}

/// The ten names of `item_fields`.
fn item_field_names() -> (names: Vec<String>)
    ensures
        names.deep_view() == item_fields(),
{
    let mut names: Vec<String> = Vec::new();
    names.push("type".to_owned());
    names.push("stac_version".to_owned());
    names.push("stac_extensions".to_owned());
    names.push("id".to_owned());
    names.push("geometry".to_owned());
    names.push("bbox".to_owned());
    names.push("properties".to_owned());
    names.push("links".to_owned());
    names.push("assets".to_owned());
    names.push("collection".to_owned());
    assert(names.deep_view() =~= item_fields());
    names
}

impl Item {
    /// An item with an identifier, the current version, and nothing else.
    /// It knows no location.
    pub fn new(id: &str) -> (x: Item)
        ensures
            x@ == (ItemView {
                kind: ITEM_TYPE@,
                version: STAC_VERSION@,
                extensions: Seq::empty(),
                id: id@,
                geometry: None,
                bbox: None,
                properties: PropertiesView { datetime: None, additional_fields: Seq::empty() },
                links: Seq::empty(),
                assets: Seq::empty(),
                collection: None,
                additional_fields: Seq::empty(),
                href: None,
            }),
            x@.is_valid(),
    {
        let x = Item {
            kind: ITEM_TYPE.to_owned(),
            version: STAC_VERSION.to_owned(),
            extensions: TextSet::new(),
            id: id.to_owned(),
            geometry: None,
            bbox: None,
            properties: Properties::new(),
            links: Vec::new(),
            assets: Vec::new(),
            collection: None,
            additional_fields: Vec::new(),
            href: None,
        };
        assert(x.links.deep_view() =~= Seq::empty());
        assert(x.assets.deep_view() =~= Seq::empty());
        assert(x.additional_fields.deep_view() =~= Seq::empty());
        x
    }

    /// Writes the item as JSON. This fails where the discriminator is no
    /// longer an item's, and only there. The location is not written.
    pub fn to_json(&self) -> (r: Result<Json, Error>)
        ensures
            match r {
                Ok(j) => self@.to_json() == Ok::<JsonView, ErrorView>(j@),
                Err(e) => self@.to_json() == Err::<JsonView, ErrorView>(e@),
            },
    {
        let kind = match serialize_type(&self.kind, ITEM_TYPE) {
            Ok(j) => j,
            Err(e) => {
                return Err(e);
            },
        };
        let mut members: Vec<(String, Json)> = Vec::new();
        assert(members.deep_view() =~= Seq::empty());
        push_member(&mut members, "type", kind);
        push_string(&mut members, "stac_version", &self.version);
        if !self.extensions.is_empty() {
            push_member(&mut members, "stac_extensions", self.extensions.to_json());
        }
        push_string(&mut members, "id", &self.id);
        let geometry = match &self.geometry {
            Some(g) => g.clone(),
            None => Json::Null,
        };
        push_member(&mut members, "geometry", geometry);
        match &self.bbox {
            Some(b) => {
                push_member(&mut members, "bbox", numbers_to_json(b));
            },
            None => {},
        }
        push_member(&mut members, "properties", Json::Object(self.properties.to_members()));
        push_member(&mut members, "links", links_to_json(&self.links));
        push_member(&mut members, "assets", Json::Object(assets_to_json(&self.assets)));
        push_optional_string(&mut members, "collection", &self.collection);
        push_members(&mut members, &self.additional_fields);
        Ok(Json::Object(members))
    }

    /// Reads an item from JSON. The value has to be an object that holds
    /// no key twice, with the discriminator of an item, the strings
    /// `stac_version` and `id`, the object `properties`, an array of links
    /// and an object of assets; `stac_extensions` is an array of strings
    /// where it is there, `geometry` an object, `bbox` an array of numbers
    /// and `collection` a string. Of several faults the first in this
    /// order is reported. What is read is valid and knows no location.
    pub fn from_json(j: &Json) -> (r: Result<Item, Error>)
        ensures
            match r {
                Ok(x) => ItemView::from_json(j@) == Ok::<ItemView, ErrorView>(x@) && x@.is_valid()
                    && x@.href is None,
                Err(e) => ItemView::from_json(j@) == Err::<ItemView, ErrorView>(e@),
            },
    {
        let members = match j {
            Json::Object(members) => members,
            _ => {
                return Err(Error::NotAnObject);
            },
        };
        if !has_distinct_keys(members) {
            return Err(Error::DuplicateField);
        }
        let kind = match read_type(members, ITEM_TYPE) {
            Ok(s) => s,
            Err(e) => {
                return Err(e);
            },
        };
        let version = match read_string(members, "stac_version") {
            Ok(s) => s,
            Err(e) => {
                return Err(e);
            },
        };
        let extensions = match read_string_list(members, "stac_extensions") {
            Ok(texts) => TextSet::from_texts(texts),
            Err(e) => {
                return Err(e);
            },
        };
        let id = match read_string(members, "id") {
            Ok(s) => s,
            Err(e) => {
                return Err(e);
            },
        };
        let geometry = match read_optional_object_value(members, "geometry") {
            Ok(g) => g,
            Err(e) => {
                return Err(e);
            },
        };
        let bbox = match read_optional_numbers(members, "bbox") {
            Ok(b) => b,
            Err(e) => {
                return Err(e);
            },
        };
        let properties_members = match read_object(members, "properties") {
            Ok(inner) => inner,
            Err(e) => {
                return Err(e);
            },
        };
        let properties = match Properties::from_members(properties_members) {
            Ok(p) => p,
            Err(e) => {
                return Err(e);
            },
        };
        let link_items = match read_array(members, "links") {
            Ok(items) => items,
            Err(e) => {
                return Err(e);
            },
        };
        let links = match links_from_json(link_items) {
            Ok(links) => links,
            Err(e) => {
                return Err(e);
            },
        };
        let asset_members = match read_object(members, "assets") {
            Ok(inner) => inner,
            Err(e) => {
                return Err(e);
            },
        };
        let assets = match assets_from_json(asset_members) {
            Ok(assets) => assets,
            Err(e) => {
                return Err(e);
            },
        };
        let collection = match read_optional_string(members, "collection") {
            Ok(s) => s,
            Err(e) => {
                return Err(e);
            },
        };
        let names = item_field_names();
        let additional_fields = rest(members, &names);
        proof {
            lemma_item_from_json_valid(j@);
        }
        Ok(
            Item {
                kind,
                version,
                extensions,
                id,
                geometry,
                bbox,
                properties,
                links,
                assets,
                collection,
                additional_fields,
                href: None,
            },
        )
    }
}

impl Href for Item {
    open spec fn href_view(&self) -> Option<Seq<char>> {
        self@.href
    }

    fn href(&self) -> (r: Option<&str>) {
        match &self.href {
            Some(s) => Some(s.as_str()),
            None => None,
        }
    }

    fn set_href(&mut self, href: &str)
        ensures
            final(self)@ == (ItemView { href: Some(href@), ..old(self)@ }),
    {
        self.href = Some(href.to_owned());
    }
}

/// The one name of `properties_fields`.
fn properties_field_names() -> (names: Vec<String>)
    ensures
        names.deep_view() == properties_fields(),
{
    let mut names: Vec<String> = Vec::new();
    names.push("datetime".to_owned());
    assert(names.deep_view() =~= properties_fields());
    names
}

impl Properties {
    /// Tells whether the properties are valid: whether they can be written
    /// and read back as they are.
    pub fn is_valid(&self) -> (r: bool)
        ensures
            r == self@.is_valid(),
    {
        can_stand_beside(&self.additional_fields, &properties_field_names())
    }
}

impl Item {
    /// Tells whether the item is valid: whether it can be written and read
    /// back as it is.
    pub fn is_valid(&self) -> (r: bool)
        ensures
            r == self@.is_valid(),
    {
        let geometry_is_object = match &self.geometry {
            Some(Json::Object(_)) => true,
            Some(_) => false,
            None => true,
        };
        self.kind == ITEM_TYPE.to_owned() && self.extensions.is_set() && geometry_is_object
            && self.properties.is_valid() && links_are_valid(&self.links) && assets_are_valid(
            &self.assets,
        ) && can_stand_beside(&self.additional_fields, &item_field_names())
    }
}

} // verus!
