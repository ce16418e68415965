//! Catalogs: documents that group other documents.

use crate::error::{Error, ErrorView};
use crate::field::{
    decode_all, encode_all, lemma_names, lemma_strings_round_trip, push_member, push_members,
    push_string, read_array, read_string, read_string_list, required_array, required_string,
    string_list, strings_json, unless_empty,
};
use crate::href::Href;
use crate::json::{
    can_stand_beside, clone_members, distinct_keys, has_distinct_keys, keys_outside, keys_within,
    lemma_known_then_rest, lemma_without_keys, member, put, rest, without, Json, JsonView, Members,
};
use crate::kind::{read_type, serialize_type, type_field, CATALOG_TYPE, STAC_VERSION};
use crate::link::{
    clone_links, links_are_valid, lemma_links_from_json_valid, lemma_links_round_trip, link_decoder, link_encoder,
    links_from_json, links_to_json, links_valid, Link, LinkView,
};
use crate::text_set::{collect, lemma_collect, lemma_collect_set, TextSet};
use vstd::prelude::*;

verus! {

broadcast use crate::json::group_json_view;

/// A document that groups catalogs, collections and items.
#[derive(Debug, PartialEq)]
pub struct Catalog {
    /// The discriminator. It has to stay `"Catalog"` for the catalog to be
    /// written.
    pub kind: String,
    /// The version of the STAC specification that the catalog follows.
    pub version: String,
    /// The extensions that the catalog declares.
    pub extensions: TextSet,
    /// The identifier.
    pub id: String,
    /// What the catalog holds.
    pub description: String,
    /// The links to other documents.
    pub links: Vec<Link>,
    /// Every other member of the catalog's JSON object, kept verbatim.
    pub additional_fields: Vec<(String, Json)>,
    /// Where the catalog was read from. It is not written.
    pub href: Option<String>,
}

/// The mathematical model of a [`Catalog`].
pub struct CatalogView {
    pub kind: Seq<char>,
    pub version: Seq<char>,
    pub extensions: Seq<Seq<char>>,
    pub id: Seq<char>,
    pub description: Seq<char>,
    pub links: Seq<LinkView>,
    pub additional_fields: Members,
    pub href: Option<Seq<char>>,
}

impl DeepView for Catalog {
    type V = CatalogView;

    open spec fn deep_view(&self) -> CatalogView {
        CatalogView {
            kind: self.kind@,
            version: self.version@,
            extensions: self.extensions@,
            id: self.id@,
            description: self.description@,
            links: self.links.deep_view(),
            additional_fields: self.additional_fields.deep_view(),
            href: self.href.deep_view(),
        }
    }
}

impl View for Catalog {
    type V = CatalogView;

    open spec fn view(&self) -> CatalogView {
        self.deep_view()
    }
}

/// The names of the members that a catalog's JSON object gives a meaning
/// to.
pub open spec fn catalog_fields() -> Seq<Seq<char>> {
    seq!["type"@, "stac_version"@, "stac_extensions"@, "id"@, "description"@, "links"@]
}

impl CatalogView {
    /// The discriminator is a catalog's, the extensions form a set, the
    /// links are valid, the additional fields form a mapping, and none of
    /// them shadows a member that the catalog itself writes.
    pub open spec fn is_valid(self) -> bool {
        &&& self.kind == CATALOG_TYPE@
        &&& self.extensions.no_duplicates()
        &&& links_valid(self.links)
        &&& distinct_keys(self.additional_fields)
        &&& keys_outside(self.additional_fields, catalog_fields())
    }

    /// The catalog without the memory of where it came from.
    pub open spec fn without_href(self) -> CatalogView {
        CatalogView { href: None, ..self }
    }

    /// The members that the typed fields are written as.
    pub open spec fn known_members(self) -> Members {
        put(
            Seq::<(Seq<char>, JsonView)>::empty().push(("type"@, JsonView::String(self.kind))).push(
                ("stac_version"@, JsonView::String(self.version)),
            ),
            "stac_extensions"@,
            unless_empty(self.extensions, strings_json(self.extensions)),
        ).push(("id"@, JsonView::String(self.id))).push(
            ("description"@, JsonView::String(self.description)),
        ).push(("links"@, JsonView::Array(encode_all(self.links, link_encoder()))))
    }

    /// The JSON that the catalog is written as, or why it cannot be
    /// written.
    pub open spec fn to_json(self) -> Result<JsonView, ErrorView> {
        if self.kind != CATALOG_TYPE@ {
            Err(ErrorView::InvalidTypeField { expected: CATALOG_TYPE@, actual: self.kind })
        } else {
            Ok(JsonView::Object(self.known_members() + self.additional_fields))
        }
    }

    /// The catalog that a JSON value is read as, or why it is none.
    pub open spec fn from_json(j: JsonView) -> Result<CatalogView, ErrorView> {
        if !(j is Object) {
            Err(ErrorView::NotAnObject)
        } else {
            let ms = j->Object_0;
            if !distinct_keys(ms) {
                Err(ErrorView::DuplicateField)
            } else if type_field(ms, CATALOG_TYPE@) is Err {
                Err(type_field(ms, CATALOG_TYPE@)->Err_0)
            } else if required_string(ms, "stac_version"@) is Err {
                Err(required_string(ms, "stac_version"@)->Err_0)
            } else if string_list(ms, "stac_extensions"@) is Err {
                Err(string_list(ms, "stac_extensions"@)->Err_0)
            } else if required_string(ms, "id"@) is Err {
                Err(required_string(ms, "id"@)->Err_0)
            } else if required_string(ms, "description"@) is Err {
                Err(required_string(ms, "description"@)->Err_0)
            } else if required_array(ms, "links"@) is Err {
                Err(required_array(ms, "links"@)->Err_0)
            } else if decode_all(required_array(ms, "links"@)->Ok_0, link_decoder()) is Err {
                Err(decode_all(required_array(ms, "links"@)->Ok_0, link_decoder())->Err_0)
            } else {
                Ok(
                    CatalogView {
                        kind: type_field(ms, CATALOG_TYPE@)->Ok_0,
                        version: required_string(ms, "stac_version"@)->Ok_0,
                        extensions: collect(string_list(ms, "stac_extensions"@)->Ok_0),
                        id: required_string(ms, "id"@)->Ok_0,
                        description: required_string(ms, "description"@)->Ok_0,
                        links: decode_all(required_array(ms, "links"@)->Ok_0, link_decoder())->Ok_0,
                        additional_fields: without(ms, catalog_fields()),
                        href: None,
                    },
                )
            }
        }
    }
}

/// Each name of `catalog_fields` is in it.
pub proof fn lemma_catalog_fields()
    ensures
        catalog_fields().contains("type"@),
        catalog_fields().contains("stac_version"@),
        catalog_fields().contains("stac_extensions"@),
        catalog_fields().contains("id"@),
        catalog_fields().contains("description"@),
        catalog_fields().contains("links"@),
{
    assert(catalog_fields()[0] == "type"@);
    assert(catalog_fields()[1] == "stac_version"@);
    assert(catalog_fields()[2] == "stac_extensions"@);
    assert(catalog_fields()[3] == "id"@);
    assert(catalog_fields()[4] == "description"@);
    assert(catalog_fields()[5] == "links"@);
}

/// What the known members of a catalog hold, whatever its optional fields
/// are.
pub proof fn lemma_catalog_known_members(c: CatalogView)
    ensures
        distinct_keys(c.known_members()),
        keys_within(c.known_members(), catalog_fields()),
        member(c.known_members(), "type"@) == Some(JsonView::String(c.kind)),
        member(c.known_members(), "stac_version"@) == Some(JsonView::String(c.version)),
        member(c.known_members(), "stac_extensions"@) == unless_empty(
            c.extensions,
            strings_json(c.extensions),
        ),
        member(c.known_members(), "id"@) == Some(JsonView::String(c.id)),
        member(c.known_members(), "description"@) == Some(JsonView::String(c.description)),
        member(c.known_members(), "links"@) == Some(
            JsonView::Array(encode_all(c.links, link_encoder())),
        ),
{
    broadcast use {
        crate::json::lemma_member_push,
        crate::json::lemma_has_key_push,
        crate::json::lemma_distinct_push,
        crate::json::lemma_keys_within_push,
    };

    lemma_names();
    lemma_catalog_fields();
}

/// A valid catalog that is written and read back is the same catalog, but
/// for the memory of where it came from.
pub proof fn lemma_catalog_round_trip(c: CatalogView)
    requires
        c.is_valid(),
    ensures
        c.to_json() is Ok,
        CatalogView::from_json(c.to_json()->Ok_0) == Ok::<CatalogView, ErrorView>(c.without_href()),
{
    lemma_catalog_known_members(c);
    lemma_catalog_fields();
    lemma_known_then_rest(c.known_members(), c.additional_fields, catalog_fields());
    lemma_strings_round_trip(c.extensions);
    lemma_collect_set(c.extensions);
    if c.extensions.len() == 0 {
        assert(c.extensions =~= Seq::empty());
    }
    lemma_links_round_trip(c.links);
}

/// What is read is valid and knows no location.
pub proof fn lemma_catalog_from_json_valid(j: JsonView)
    ensures
        CatalogView::from_json(j) matches Ok(c) ==> c.is_valid() && c.href is None,
{
    if j is Object {
        let ms = j->Object_0;
        lemma_without_keys(ms, catalog_fields());
        if string_list(ms, "stac_extensions"@) is Ok {
            lemma_collect(string_list(ms, "stac_extensions"@)->Ok_0);
        }
        if required_array(ms, "links"@) is Ok {
            lemma_links_from_json_valid(required_array(ms, "links"@)->Ok_0);
        }
    }
}

impl Clone for Catalog {
    fn clone(&self) -> (r: Self)
        ensures
            r@ == self@,
    {
        Catalog {
            kind: self.kind.clone(),
            version: self.version.clone(),
            extensions: self.extensions.clone(),
            id: self.id.clone(),
            description: self.description.clone(),
            links: clone_links(&self.links),
            additional_fields: clone_members(&self.additional_fields),
            href: crate::field::clone_text(&self.href),
        }
    }
}

/// The six names of `catalog_fields`.
fn catalog_field_names() -> (names: Vec<String>)
    ensures
        names.deep_view() == catalog_fields(),
{
    let mut names: Vec<String> = Vec::new();
    names.push("type".to_owned());
    names.push("stac_version".to_owned());
    names.push("stac_extensions".to_owned());
    names.push("id".to_owned());
    names.push("description".to_owned());
    names.push("links".to_owned());
    assert(names.deep_view() =~= catalog_fields());
    names
}

impl Catalog {
    /// A catalog with an identifier and a description, the current
    /// version, and nothing else. It knows no location.
    pub fn new(id: &str, description: &str) -> (c: Catalog)
        ensures
            c@ == (CatalogView {
                kind: CATALOG_TYPE@,
                version: STAC_VERSION@,
                extensions: Seq::empty(),
                id: id@,
                description: description@,
                links: Seq::empty(),
                additional_fields: Seq::empty(),
                href: None,
            }),
            c@.is_valid(),
    {
        let c = Catalog {
            kind: CATALOG_TYPE.to_owned(),
            version: STAC_VERSION.to_owned(),
            extensions: TextSet::new(),
            id: id.to_owned(),
            description: description.to_owned(),
            links: Vec::new(),
            additional_fields: Vec::new(),
            href: None,
        };
        assert(c.links.deep_view() =~= Seq::empty());
        assert(c.additional_fields.deep_view() =~= Seq::empty());
        c
    }

    /// Writes the catalog as JSON. This fails where the discriminator is
    /// no longer a catalog's, and only there. The location is not written.
    pub fn to_json(&self) -> (r: Result<Json, Error>)
        ensures
            match r {
                Ok(j) => self@.to_json() == Ok::<JsonView, ErrorView>(j@),
                Err(e) => self@.to_json() == Err::<JsonView, ErrorView>(e@),
            },
    {
        let kind = match serialize_type(&self.kind, CATALOG_TYPE) {
            Ok(j) => j,
            Err(e) => {
                return Err(e);
            },
        };
        let mut members: Vec<(String, Json)> = Vec::new();
        assert(members.deep_view() =~= Seq::empty());
        push_member(&mut members, "type", kind);
        push_string(&mut members, "stac_version", &self.version);
        if !self.extensions.is_empty() {
            push_member(&mut members, "stac_extensions", self.extensions.to_json());
        }
        push_string(&mut members, "id", &self.id);
        push_string(&mut members, "description", &self.description);
        push_member(&mut members, "links", links_to_json(&self.links));
        push_members(&mut members, &self.additional_fields);
        Ok(Json::Object(members))
    }

    /// Reads a catalog from JSON. The value has to be an object that holds
    /// no key twice, with the discriminator of a catalog, the strings
    /// `stac_version`, `id` and `description`, and an array of links;
    /// `stac_extensions` is an array of strings where it is there. Of
    /// several faults the first in this order is reported. What is read is
    /// valid and knows no location.
    pub fn from_json(j: &Json) -> (r: Result<Catalog, Error>)
        ensures
            match r {
                Ok(c) => CatalogView::from_json(j@) == Ok::<CatalogView, ErrorView>(c@)
                    && c@.is_valid() && c@.href is None,
                Err(e) => CatalogView::from_json(j@) == Err::<CatalogView, ErrorView>(e@),
            },
    {
        let members = match j {
            Json::Object(members) => members,
            _ => {
                return Err(Error::NotAnObject);
            },
        };
        if !has_distinct_keys(members) {
            return Err(Error::DuplicateField);
        }
        let kind = match read_type(members, CATALOG_TYPE) {
            Ok(s) => s,
            Err(e) => {
                return Err(e);
            },
        };
        let version = match read_string(members, "stac_version") {
            Ok(s) => s,
            Err(e) => {
                return Err(e);
            },
        };
        let extensions = match read_string_list(members, "stac_extensions") {
            Ok(texts) => TextSet::from_texts(texts),
            Err(e) => {
                return Err(e);
            },
        };
        let id = match read_string(members, "id") {
            Ok(s) => s,
            Err(e) => {
                return Err(e);
            },
        };
        let description = match read_string(members, "description") {
            Ok(s) => s,
            Err(e) => {
                return Err(e);
            },
        };
        let items = match read_array(members, "links") {
            Ok(items) => items,
            Err(e) => {
                return Err(e);
            },
        };
        let links = match links_from_json(items) {
            Ok(links) => links,
            Err(e) => {
                return Err(e);
            },
        };
        let names = catalog_field_names();
        let additional_fields = rest(members, &names);
        proof {
            lemma_catalog_from_json_valid(j@);
        }
        Ok(
            Catalog {
                kind,
                version,
                extensions,
                id,
                description,
                links,
                additional_fields,
                href: None,
            },
        )
    }
}

impl Href for Catalog {
    open spec fn href_view(&self) -> Option<Seq<char>> {
        self@.href
    }

    fn href(&self) -> (r: Option<&str>) {
        match &self.href {
            Some(s) => Some(s.as_str()),
            None => None,
        }
    }

    fn set_href(&mut self, href: &str)
        ensures
            final(self)@ == (CatalogView { href: Some(href@), ..old(self)@ }),
    {
        self.href = Some(href.to_owned());
    }
}

impl Catalog {
    /// Tells whether the catalog is valid: whether it can be written and
    /// read back as it is.
    pub fn is_valid(&self) -> (r: bool)
        ensures
            r == self@.is_valid(),
    {
        self.kind == CATALOG_TYPE.to_owned() && self.extensions.is_set() && links_are_valid(
            &self.links,
        ) && can_stand_beside(&self.additional_fields, &catalog_field_names())
    }
}

} // verus!
