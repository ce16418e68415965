//! Collections: catalogs with the extent, the providers and the summaries
//! of a whole dataset.

use crate::asset::{
    assets_are_valid, assets_from_json, assets_from_members, assets_to_json, assets_to_members, assets_valid,
    clone_assets, lemma_assets_from_members_valid, lemma_assets_round_trip, Asset, AssetsView,
};
use crate::error::{Error, ErrorView};
use crate::extent::{
    lemma_extent_from_members_valid, lemma_extent_round_trip, Extent, ExtentView,
};
use crate::field::{
    clone_text, decode_all, encode_all, lemma_names, lemma_strings_round_trip, optional_array,
    optional_object, push_member, push_members, push_string, read_array, read_object,
    read_optional_array, read_optional_object, read_string, read_string_list, required_array,
    required_object, required_string, string_list, strings_json, unless_empty,
};
use crate::href::Href;
use crate::json::{
    can_stand_beside, clone_members, distinct_keys, has_distinct_keys, keys_outside, keys_within,
    lemma_known_then_rest, lemma_without_keys, member, put, rest, without, Json, JsonView, Members,
};
use crate::kind::{read_type, serialize_type, type_field, COLLECTION_TYPE, STAC_VERSION};
use crate::link::{
    clone_links, links_are_valid, lemma_links_from_json_valid, lemma_links_round_trip, link_decoder, link_encoder,
    links_from_json, links_to_json, links_valid, Link, LinkView,
};
use crate::provider::{
    clone_providers, providers_are_valid, lemma_providers_from_json_valid, lemma_providers_round_trip,
    provider_decoder, provider_encoder, providers_from_json, providers_to_json, providers_valid,
    Provider, ProviderView,
};
use crate::text_set::{collect, lemma_collect, lemma_collect_set, TextSet};
use vstd::prelude::*;

verus! {

broadcast use crate::json::group_json_view;

/// A catalog that describes a whole dataset.
#[derive(Debug, PartialEq)]
pub struct Collection {
    /// The discriminator. It has to stay `"Collection"` for the collection
    /// to be written.
    pub kind: String,
    /// The version of the STAC specification that the collection follows.
    pub version: String,
    /// The extensions that the collection declares.
    pub extensions: TextSet,
    /// The identifier.
    pub id: String,
    /// What the collection holds.
    pub description: String,
    /// What the collection covers, in space and in time.
    pub extent: Extent,
    /// The organisations that have a part in the data.
    pub providers: Vec<Provider>,
    /// What the items of the collection have in common.
    pub summaries: Vec<(String, Json)>,
    /// The links to other documents.
    pub links: Vec<Link>,
    /// The files that belong to the collection, under their names.
    pub assets: Vec<(String, Asset)>,
    /// Every other member of the collection's JSON object, kept verbatim.
    pub additional_fields: Vec<(String, Json)>,
    /// Where the collection was read from. It is not written.
    pub href: Option<String>,
}

/// The mathematical model of a [`Collection`].
pub struct CollectionView {
    pub kind: Seq<char>,
    pub version: Seq<char>,
    pub extensions: Seq<Seq<char>>,
    pub id: Seq<char>,
    pub description: Seq<char>,
    pub extent: ExtentView,
    pub providers: Seq<ProviderView>,
    pub summaries: Members,
    pub links: Seq<LinkView>,
    pub assets: AssetsView,
    pub additional_fields: Members,
    pub href: Option<Seq<char>>,
}

impl DeepView for Collection {
    type V = CollectionView;

    open spec fn deep_view(&self) -> CollectionView {
        CollectionView {
            kind: self.kind@,
            version: self.version@,
            extensions: self.extensions@,
            id: self.id@,
            description: self.description@,
            extent: self.extent@,
            providers: self.providers.deep_view(),
            summaries: self.summaries.deep_view(),
            links: self.links.deep_view(),
            assets: self.assets.deep_view(),
            additional_fields: self.additional_fields.deep_view(),
            href: self.href.deep_view(),
        }
    }
}

impl View for Collection {
    type V = CollectionView;

    open spec fn view(&self) -> CollectionView {
        self.deep_view()
    }
}

/// The names of the members that a collection's JSON object gives a
/// meaning to.
pub open spec fn collection_fields() -> Seq<Seq<char>> {
    seq![
        "type"@,
        "stac_version"@,
        "stac_extensions"@,
        "id"@,
        "description"@,
        "extent"@,
        "providers"@,
        "summaries"@,
        "links"@,
        "assets"@,
    ]
}

impl CollectionView {
    /// The discriminator is a collection's, the extensions form a set,
    /// extent, providers, links and assets are valid, the additional
    /// fields form a mapping, and none of them shadows a member that the
    /// collection itself writes.
    pub open spec fn is_valid(self) -> bool {
        &&& self.kind == COLLECTION_TYPE@
        &&& self.extensions.no_duplicates()
        &&& self.extent.is_valid()
        &&& providers_valid(self.providers)
        &&& links_valid(self.links)
        &&& assets_valid(self.assets)
        &&& distinct_keys(self.additional_fields)
        &&& keys_outside(self.additional_fields, collection_fields())
    }

    /// The collection without the memory of where it came from.
    pub open spec fn without_href(self) -> CollectionView {
        CollectionView { href: None, ..self }
    }

    /// The members that the typed fields are written as.
    pub open spec fn known_members(self) -> Members {
        put(
            put(
                put(
                    put(
                        Seq::<(Seq<char>, JsonView)>::empty().push(
                            ("type"@, JsonView::String(self.kind)),
                        ).push(("stac_version"@, JsonView::String(self.version))),
                        "stac_extensions"@,
                        unless_empty(self.extensions, strings_json(self.extensions)),
                    ).push(("id"@, JsonView::String(self.id))).push(
                        ("description"@, JsonView::String(self.description)),
                    ).push(("extent"@, JsonView::Object(self.extent.to_members()))),
                    "providers"@,
                    unless_empty(
                        self.providers,
                        JsonView::Array(encode_all(self.providers, provider_encoder())),
                    ),
                ),
                "summaries"@,
                unless_empty(self.summaries, JsonView::Object(self.summaries)),
            ).push(("links"@, JsonView::Array(encode_all(self.links, link_encoder())))),
            "assets"@,
            unless_empty(self.assets, JsonView::Object(assets_to_members(self.assets))),
        )
    }

    /// The JSON that the collection is written as, or why it cannot be
    /// written.
    pub open spec fn to_json(self) -> Result<JsonView, ErrorView> {
        if self.kind != COLLECTION_TYPE@ {
            Err(ErrorView::InvalidTypeField { expected: COLLECTION_TYPE@, actual: self.kind })
        } else {
            Ok(JsonView::Object(self.known_members() + self.additional_fields))
        }
    }

    /// The collection that a JSON value is read as, or why it is none.
    pub open spec fn from_json(j: JsonView) -> Result<CollectionView, ErrorView> {
        if !(j is Object) {
            Err(ErrorView::NotAnObject)
        } else {
            let ms = j->Object_0;
            if !distinct_keys(ms) {
                Err(ErrorView::DuplicateField)
            } else if type_field(ms, COLLECTION_TYPE@) is Err {
                Err(type_field(ms, COLLECTION_TYPE@)->Err_0)
            } else if required_string(ms, "stac_version"@) is Err {
                Err(required_string(ms, "stac_version"@)->Err_0)
            } else if string_list(ms, "stac_extensions"@) is Err {
                Err(string_list(ms, "stac_extensions"@)->Err_0)
            } else if required_string(ms, "id"@) is Err {
                Err(required_string(ms, "id"@)->Err_0)
            } else if required_string(ms, "description"@) is Err {
                Err(required_string(ms, "description"@)->Err_0)
            } else if required_object(ms, "extent"@) is Err {
                Err(required_object(ms, "extent"@)->Err_0)
            } else if ExtentView::from_members(required_object(ms, "extent"@)->Ok_0) is Err {
                Err(ExtentView::from_members(required_object(ms, "extent"@)->Ok_0)->Err_0)
            } else if optional_array(ms, "providers"@) is Err {
                Err(optional_array(ms, "providers"@)->Err_0)
            } else if decode_all(optional_array(ms, "providers"@)->Ok_0, provider_decoder())
                is Err {
                Err(decode_all(optional_array(ms, "providers"@)->Ok_0, provider_decoder())->Err_0)
            } else if optional_object(ms, "summaries"@) is Err {
                Err(optional_object(ms, "summaries"@)->Err_0)
            } else if required_array(ms, "links"@) is Err {
                Err(required_array(ms, "links"@)->Err_0)
            } else if decode_all(required_array(ms, "links"@)->Ok_0, link_decoder()) is Err {
                Err(decode_all(required_array(ms, "links"@)->Ok_0, link_decoder())->Err_0)
            } else if optional_object(ms, "assets"@) is Err {
                Err(optional_object(ms, "assets"@)->Err_0)
            } else if assets_from_members(optional_object(ms, "assets"@)->Ok_0) is Err {
                Err(assets_from_members(optional_object(ms, "assets"@)->Ok_0)->Err_0)
            } else {
                Ok(
                    CollectionView {
                        kind: type_field(ms, COLLECTION_TYPE@)->Ok_0,
                        version: required_string(ms, "stac_version"@)->Ok_0,
                        extensions: collect(string_list(ms, "stac_extensions"@)->Ok_0),
                        id: required_string(ms, "id"@)->Ok_0,
                        description: required_string(ms, "description"@)->Ok_0,
                        extent: ExtentView::from_members(
                            required_object(ms, "extent"@)->Ok_0,
                        )->Ok_0,
                        providers: decode_all(
                            optional_array(ms, "providers"@)->Ok_0,
                            provider_decoder(),
                        )->Ok_0,
                        summaries: optional_object(ms, "summaries"@)->Ok_0,
                        links: decode_all(required_array(ms, "links"@)->Ok_0, link_decoder())->Ok_0,
                        assets: assets_from_members(optional_object(ms, "assets"@)->Ok_0)->Ok_0,
                        additional_fields: without(ms, collection_fields()),
                        href: None,
                    },
                )
            }
        }
    }
}

/// Each name of `collection_fields` is in it.
pub proof fn lemma_collection_fields()
    ensures
        collection_fields().contains("type"@),
        collection_fields().contains("stac_version"@),
        collection_fields().contains("stac_extensions"@),
        collection_fields().contains("id"@),
        collection_fields().contains("description"@),
        collection_fields().contains("extent"@),
        collection_fields().contains("providers"@),
        collection_fields().contains("summaries"@),
        collection_fields().contains("links"@),
        collection_fields().contains("assets"@),
{
    assert(collection_fields()[0] == "type"@);
    assert(collection_fields()[1] == "stac_version"@);
    assert(collection_fields()[2] == "stac_extensions"@);
    assert(collection_fields()[3] == "id"@);
    assert(collection_fields()[4] == "description"@);
    assert(collection_fields()[5] == "extent"@);
    assert(collection_fields()[6] == "providers"@);
    assert(collection_fields()[7] == "summaries"@);
    assert(collection_fields()[8] == "links"@);
    assert(collection_fields()[9] == "assets"@);
}

/// What the known members of a collection hold, whatever its optional
/// fields are.
pub proof fn lemma_collection_known_members(c: CollectionView)
    ensures
        distinct_keys(c.known_members()),
        keys_within(c.known_members(), collection_fields()),
        member(c.known_members(), "type"@) == Some(JsonView::String(c.kind)),
        member(c.known_members(), "stac_version"@) == Some(JsonView::String(c.version)),
        member(c.known_members(), "stac_extensions"@) == unless_empty(
            c.extensions,
            strings_json(c.extensions),
        ),
        member(c.known_members(), "id"@) == Some(JsonView::String(c.id)),
        member(c.known_members(), "description"@) == Some(JsonView::String(c.description)),
        member(c.known_members(), "extent"@) == Some(JsonView::Object(c.extent.to_members())),
        member(c.known_members(), "providers"@) == unless_empty(
            c.providers,
            JsonView::Array(encode_all(c.providers, provider_encoder())),
        ),
        member(c.known_members(), "summaries"@) == unless_empty(
            c.summaries,
            JsonView::Object(c.summaries),
        ),
        member(c.known_members(), "links"@) == Some(
            JsonView::Array(encode_all(c.links, link_encoder())),
        ),
        member(c.known_members(), "assets"@) == unless_empty(
            c.assets,
            JsonView::Object(assets_to_members(c.assets)),
        ),
{
    broadcast use {
        crate::json::lemma_member_push,
        crate::json::lemma_has_key_push,
        crate::json::lemma_distinct_push,
        crate::json::lemma_keys_within_push,
    };

    lemma_names();
    lemma_collection_fields();
}

/// A valid collection that is written and read back is the same
/// collection, but for the memory of where it came from.
pub proof fn lemma_collection_round_trip(c: CollectionView)
    requires
        c.is_valid(),
    ensures
        c.to_json() is Ok,
        CollectionView::from_json(c.to_json()->Ok_0) == Ok::<CollectionView, ErrorView>(
            c.without_href(),
        ),
{
    lemma_collection_known_members(c);
    lemma_collection_fields();
    lemma_known_then_rest(c.known_members(), c.additional_fields, collection_fields());
    lemma_strings_round_trip(c.extensions);
    lemma_collect_set(c.extensions);
    if c.extensions.len() == 0 {
        assert(c.extensions =~= Seq::empty());
    }
    lemma_extent_round_trip(c.extent);
    lemma_providers_round_trip(c.providers);
    if c.providers.len() == 0 {
        assert(c.providers =~= Seq::empty());
    }
    if c.summaries.len() == 0 {
        assert(c.summaries =~= Seq::empty());
    }
    lemma_links_round_trip(c.links);
    lemma_assets_round_trip(c.assets);
    if c.assets.len() == 0 {
        assert(c.assets =~= Seq::empty());
    }
}

/// What is read is valid and knows no location.
pub proof fn lemma_collection_from_json_valid(j: JsonView)
    ensures
        CollectionView::from_json(j) matches Ok(c) ==> c.is_valid() && c.href is None,
{
    if j is Object {
        let ms = j->Object_0;
        lemma_without_keys(ms, collection_fields());
        if string_list(ms, "stac_extensions"@) is Ok {
            lemma_collect(string_list(ms, "stac_extensions"@)->Ok_0);
        }
        if required_object(ms, "extent"@) is Ok {
            lemma_extent_from_members_valid(required_object(ms, "extent"@)->Ok_0);
        }
        if optional_array(ms, "providers"@) is Ok {
            lemma_providers_from_json_valid(optional_array(ms, "providers"@)->Ok_0);
        }
        if required_array(ms, "links"@) is Ok {
            lemma_links_from_json_valid(required_array(ms, "links"@)->Ok_0);
        }
        if optional_object(ms, "assets"@) is Ok {
            lemma_assets_from_members_valid(optional_object(ms, "assets"@)->Ok_0);
        }
    }
}

impl Clone for Collection {
    fn clone(&self) -> (r: Self)
        ensures
            r@ == self@,
    {
        Collection {
            kind: self.kind.clone(),
            version: self.version.clone(),
            extensions: self.extensions.clone(),
            id: self.id.clone(),
            description: self.description.clone(),
            extent: self.extent.clone(),
            providers: clone_providers(&self.providers),
            summaries: clone_members(&self.summaries),
            links: clone_links(&self.links),
            assets: clone_assets(&self.assets),
            additional_fields: clone_members(&self.additional_fields),
            href: clone_text(&self.href),
        }
    }
}

/// The ten names of `collection_fields`.
fn collection_field_names() -> (names: Vec<String>)
    ensures
        names.deep_view() == collection_fields(),
{
    let mut names: Vec<String> = Vec::new();
    names.push("type".to_owned());
    names.push("stac_version".to_owned());
    names.push("stac_extensions".to_owned());
    names.push("id".to_owned());
    names.push("description".to_owned());
    names.push("extent".to_owned());
    names.push("providers".to_owned());
    names.push("summaries".to_owned());
    names.push("links".to_owned());
    names.push("assets".to_owned());
    assert(names.deep_view() =~= collection_fields());
    names
}

impl Collection {
    /// A collection with an identifier and a description, the current
    /// version, the extent of the whole world at any time, and nothing
    /// else. It knows no location.
    pub fn new(id: &str, description: &str) -> (c: Collection)
        ensures
            c@ == (CollectionView {
                kind: COLLECTION_TYPE@,
                version: STAC_VERSION@,
                extensions: Seq::empty(),
                id: id@,
                description: description@,
                extent: ExtentView::whole(),
                providers: Seq::empty(),
                summaries: Seq::empty(),
                links: Seq::empty(),
                assets: Seq::empty(),
                additional_fields: Seq::empty(),
                href: None,
            }),
            c@.is_valid(),
    {
        let c = Collection {
            kind: COLLECTION_TYPE.to_owned(),
            version: STAC_VERSION.to_owned(),
            extensions: TextSet::new(),
            id: id.to_owned(),
            description: description.to_owned(),
            extent: Extent::new(),
            providers: Vec::new(),
            summaries: Vec::new(),
            links: Vec::new(),
            assets: Vec::new(),
            additional_fields: Vec::new(),
            href: None,
        };
        assert(c.providers.deep_view() =~= Seq::empty());
        assert(c.summaries.deep_view() =~= Seq::empty());
        assert(c.links.deep_view() =~= Seq::empty());
        assert(c.assets.deep_view() =~= Seq::empty());
        assert(c.additional_fields.deep_view() =~= Seq::empty());
        c
    }

    /// Writes the collection as JSON. This fails where the discriminator
    /// is no longer a collection's, and only there. The location is not
    /// written.
    pub fn to_json(&self) -> (r: Result<Json, Error>)
        ensures
            match r {
                Ok(j) => self@.to_json() == Ok::<JsonView, ErrorView>(j@),
                Err(e) => self@.to_json() == Err::<JsonView, ErrorView>(e@),
            },
    {
        let kind = match serialize_type(&self.kind, COLLECTION_TYPE) {
            Ok(j) => j,
            Err(e) => {
                return Err(e);
            },
        };
        let mut members: Vec<(String, Json)> = Vec::new();
        assert(members.deep_view() =~= Seq::empty());
        push_member(&mut members, "type", kind);
        push_string(&mut members, "stac_version", &self.version);
        if !self.extensions.is_empty() {
            push_member(&mut members, "stac_extensions", self.extensions.to_json());
        }
        push_string(&mut members, "id", &self.id);
        push_string(&mut members, "description", &self.description);
        push_member(&mut members, "extent", Json::Object(self.extent.to_members()));
        if self.providers.len() > 0 {
            push_member(&mut members, "providers", providers_to_json(&self.providers));
        }
        if self.summaries.len() > 0 {
            push_member(&mut members, "summaries", Json::Object(clone_members(&self.summaries)));
        }
        push_member(&mut members, "links", links_to_json(&self.links));
        if self.assets.len() > 0 {
            push_member(&mut members, "assets", Json::Object(assets_to_json(&self.assets)));
        }
        push_members(&mut members, &self.additional_fields);
        Ok(Json::Object(members))
    }

    /// Reads a collection from JSON. The value has to be an object that
    /// holds no key twice, with the discriminator of a collection, the
    /// strings `stac_version`, `id` and `description`, the object
    /// `extent`, and an array of links; `stac_extensions` is an array of
    /// strings where it is there, `providers` an array of providers,
    /// `summaries` an object and `assets` an object of assets. Of several
    /// faults the first in this order is reported. What is read is valid
    /// and knows no location.
    pub fn from_json(j: &Json) -> (r: Result<Collection, Error>)
        ensures
            match r {
                Ok(c) => CollectionView::from_json(j@) == Ok::<CollectionView, ErrorView>(c@)
                    && c@.is_valid() && c@.href is None,
                Err(e) => CollectionView::from_json(j@) == Err::<CollectionView, ErrorView>(e@),
            },
    {
        let members = match j {
            Json::Object(members) => members,
            _ => {
                return Err(Error::NotAnObject);
            },
        };
        if !has_distinct_keys(members) {
            return Err(Error::DuplicateField);
        }
        let kind = match read_type(members, COLLECTION_TYPE) {
            Ok(s) => s,
            Err(e) => {
                return Err(e);
            },
        };
        let version = match read_string(members, "stac_version") {
            Ok(s) => s,
            Err(e) => {
                return Err(e);
            },
        };
        let extensions = match read_string_list(members, "stac_extensions") {
            Ok(texts) => TextSet::from_texts(texts),
            Err(e) => {
                return Err(e);
            },
        };
        let id = match read_string(members, "id") {
            Ok(s) => s,
            Err(e) => {
                return Err(e);
            },
        };
        let description = match read_string(members, "description") {
            Ok(s) => s,
            Err(e) => {
                return Err(e);
            },
        };
        let extent_members = match read_object(members, "extent") {
            Ok(inner) => inner,
            Err(e) => {
                return Err(e);
            },
        };
        let extent = match Extent::from_members(extent_members) {
            Ok(x) => x,
            Err(e) => {
                return Err(e);
            },
        };
        let provider_items = match read_optional_array(members, "providers") {
            Ok(items) => items,
            Err(e) => {
                return Err(e);
            },
        };
        let providers = match provider_items {
            Some(items) => match providers_from_json(items) {
                Ok(providers) => providers,
                Err(e) => {
                    return Err(e);
                },
            },
            None => {
                let providers: Vec<Provider> = Vec::new();
                assert(providers.deep_view() =~= Seq::empty());
                providers
            },
        };
        let summaries = match read_optional_object(members, "summaries") {
            Ok(Some(inner)) => clone_members(inner),
            Ok(None) => {
                let summaries: Vec<(String, Json)> = Vec::new();
                assert(summaries.deep_view() =~= Seq::empty());
                summaries
            },
            Err(e) => {
                return Err(e);
            },
        };
        let link_items = match read_array(members, "links") {
            Ok(items) => items,
            Err(e) => {
                return Err(e);
            },
        };
        let links = match links_from_json(link_items) {
            Ok(links) => links,
            Err(e) => {
                return Err(e);
            },
        };
        let asset_members = match read_optional_object(members, "assets") {
            Ok(inner) => inner,
            Err(e) => {
                return Err(e);
            },
        };
        let assets = match asset_members {
            Some(inner) => match assets_from_json(inner) {
                Ok(assets) => assets,
                Err(e) => {
                    return Err(e);
                },
            },
            None => {
                let assets: Vec<(String, Asset)> = Vec::new();
                assert(assets.deep_view() =~= Seq::empty());
                assets
            },
        };
        let names = collection_field_names();
        let additional_fields = rest(members, &names);
        proof {
            lemma_collection_from_json_valid(j@);
        }
        Ok(
            Collection {
                kind,
                version,
                extensions,
                id,
                description,
                extent,
                providers,
                summaries,
                links,
                assets,
                additional_fields,
                href: None,
            },
        )
    }
}

impl Href for Collection {
    open spec fn href_view(&self) -> Option<Seq<char>> {
        self@.href
    }

    fn href(&self) -> (r: Option<&str>) {
        match &self.href {
            Some(s) => Some(s.as_str()),
            None => None,
        }
    }

    fn set_href(&mut self, href: &str)
        ensures
            final(self)@ == (CollectionView { href: Some(href@), ..old(self)@ }),
    {
        self.href = Some(href.to_owned());
    }
}

impl Collection {
    /// Tells whether the collection is valid: whether it can be written
    /// and read back as it is.
    pub fn is_valid(&self) -> (r: bool)
        ensures
            r == self@.is_valid(),
    {
        self.kind == COLLECTION_TYPE.to_owned() && self.extensions.is_set()
            && self.extent.is_valid() && providers_are_valid(&self.providers) && links_are_valid(
            &self.links,
        ) && assets_are_valid(&self.assets) && can_stand_beside(
            &self.additional_fields,
            &collection_field_names(),
        )
    }
}

} // verus!
