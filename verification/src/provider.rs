//! Providers: the organisations that capture, process or host the data of
//! a collection.

use crate::error::{Error, ErrorView};
use crate::field::{
    clone_text, decode_all, encode_all, lemma_decode_all_each, lemma_decode_all_prefix,
    lemma_decode_all_push, lemma_decode_all_round_trip, lemma_names, lemma_strings_round_trip,
    optional_string, optional_string_json, push_member, push_members, push_optional_string,
    push_string, read_optional_string, read_string, read_string_list, required_string,
    string_list, strings_json, unless_empty,
};
use crate::json::{
    can_stand_beside, clone_members, distinct_keys, has_distinct_keys, keys_outside, keys_within,
    lemma_known_then_rest, lemma_without_keys, member, put, rest, without, Json, JsonView, Members,
};
use crate::text_set::{collect, lemma_collect, lemma_collect_set, TextSet};
use vstd::prelude::*;

verus! {

broadcast use crate::json::group_json_view;

/// An organisation that has a part in the data of a collection.
#[derive(Debug, PartialEq)]
pub struct Provider {
    /// The name of the organisation.
    pub name: String,
    /// What the organisation does with the data.
    pub description: Option<String>,
    /// The parts that the organisation has.
    pub roles: TextSet,
    /// The home page of the organisation.
    pub url: Option<String>,
    /// Every other member of the provider's JSON object, kept verbatim.
    pub additional_fields: Vec<(String, Json)>,
}

/// The mathematical model of a [`Provider`].
pub struct ProviderView {
    pub name: Seq<char>,
    pub description: Option<Seq<char>>,
    pub roles: Seq<Seq<char>>,
    pub url: Option<Seq<char>>,
    pub additional_fields: Members,
}

impl DeepView for Provider {
    type V = ProviderView;

    open spec fn deep_view(&self) -> ProviderView {
        ProviderView {
            name: self.name@,
            description: self.description.deep_view(),
            roles: self.roles@,
            url: self.url.deep_view(),
            additional_fields: self.additional_fields.deep_view(),
        }
    }
}

impl View for Provider {
    type V = ProviderView;

    open spec fn view(&self) -> ProviderView {
        self.deep_view()
    }
}

/// The names of the members that a provider's JSON object gives a meaning
/// to.
pub open spec fn provider_fields() -> Seq<Seq<char>> {
    seq!["name"@, "description"@, "roles"@, "url"@]
}

impl ProviderView {
    /// The roles form a set, the additional fields a mapping, and none of
    /// these fields shadows a member that the provider itself writes.
    pub open spec fn is_valid(self) -> bool {
        &&& self.roles.no_duplicates()
        &&& distinct_keys(self.additional_fields)
        &&& keys_outside(self.additional_fields, provider_fields())
    }

    /// The members that the typed fields are written as.
    pub open spec fn known_members(self) -> Members {
        put(
            put(
                put(
                    Seq::<(Seq<char>, JsonView)>::empty().push(
                        ("name"@, JsonView::String(self.name)),
                    ),
                    "description"@,
                    optional_string_json(self.description),
                ),
                "roles"@,
                unless_empty(self.roles, strings_json(self.roles)),
            ),
            "url"@,
            optional_string_json(self.url),
        )
    }

    /// The JSON that the provider is written as.
    pub open spec fn to_json(self) -> JsonView {
        JsonView::Object(self.known_members() + self.additional_fields)
    }

    /// The provider that a JSON value is read as, or why it is none.
    pub open spec fn from_json(j: JsonView) -> Result<ProviderView, ErrorView> {
        if !(j is Object) {
            Err(ErrorView::NotAnObject)
        } else {
            let ms = j->Object_0;
            if !distinct_keys(ms) {
                Err(ErrorView::DuplicateField)
            } else if required_string(ms, "name"@) is Err {
                Err(required_string(ms, "name"@)->Err_0)
            } else if optional_string(ms, "description"@) is Err {
                Err(optional_string(ms, "description"@)->Err_0)
            } else if string_list(ms, "roles"@) is Err {
                Err(string_list(ms, "roles"@)->Err_0)
            } else if optional_string(ms, "url"@) is Err {
                Err(optional_string(ms, "url"@)->Err_0)
            } else {
                Ok(
                    ProviderView {
                        name: required_string(ms, "name"@)->Ok_0,
                        description: optional_string(ms, "description"@)->Ok_0,
                        roles: collect(string_list(ms, "roles"@)->Ok_0),
                        url: optional_string(ms, "url"@)->Ok_0,
                        additional_fields: without(ms, provider_fields()),
                    },
                )
            }
        }
    }
}

/// Each name of `provider_fields` is in it.
pub proof fn lemma_provider_fields()
    ensures
        provider_fields().contains("name"@),
        provider_fields().contains("description"@),
        provider_fields().contains("roles"@),
        provider_fields().contains("url"@),
{
    assert(provider_fields()[0] == "name"@);
    assert(provider_fields()[1] == "description"@);
    assert(provider_fields()[2] == "roles"@);
    assert(provider_fields()[3] == "url"@);
}

/// What the known members of a provider hold, whatever its optional fields
/// are.
pub proof fn lemma_provider_known_members(p: ProviderView)
    ensures
        distinct_keys(p.known_members()),
        keys_within(p.known_members(), provider_fields()),
        member(p.known_members(), "name"@) == Some(JsonView::String(p.name)),
        member(p.known_members(), "description"@) == optional_string_json(p.description),
        member(p.known_members(), "roles"@) == unless_empty(p.roles, strings_json(p.roles)),
        member(p.known_members(), "url"@) == optional_string_json(p.url),
{
    broadcast use {
        crate::json::lemma_member_push,
        crate::json::lemma_has_key_push,
        crate::json::lemma_distinct_push,
        crate::json::lemma_keys_within_push,
    };

    lemma_names();
    lemma_provider_fields();
}

/// A valid provider that is written and read back is the same provider.
pub proof fn lemma_provider_round_trip(p: ProviderView)
    requires
        p.is_valid(),
    ensures
        ProviderView::from_json(p.to_json()) == Ok::<ProviderView, ErrorView>(p),
{
    lemma_provider_known_members(p);
    lemma_provider_fields();
    lemma_known_then_rest(p.known_members(), p.additional_fields, provider_fields());
    lemma_strings_round_trip(p.roles);
    lemma_collect_set(p.roles);
    if p.roles.len() == 0 {
        assert(p.roles =~= Seq::empty());
    }
}

/// What is read is valid.
pub proof fn lemma_provider_from_json_valid(j: JsonView)
    ensures
        ProviderView::from_json(j) matches Ok(p) ==> p.is_valid(),
{
    if j is Object {
        let ms = j->Object_0;
        lemma_without_keys(ms, provider_fields());
        if string_list(ms, "roles"@) is Ok {
            lemma_collect(string_list(ms, "roles"@)->Ok_0);
        }
    }
}

/// Reading a provider, as a function.
pub open spec fn provider_decoder() -> spec_fn(JsonView) -> Result<ProviderView, ErrorView> {
    |j: JsonView| ProviderView::from_json(j)
}

/// Writing a provider, as a function.
pub open spec fn provider_encoder() -> spec_fn(ProviderView) -> JsonView {
    |p: ProviderView| p.to_json()
}

/// Every provider is valid.
pub open spec fn providers_valid(providers: Seq<ProviderView>) -> bool {
    forall|i: int| 0 <= i < providers.len() ==> (#[trigger] providers[i]).is_valid()
}

/// Valid providers that are written and read back are the same providers.
pub proof fn lemma_providers_round_trip(providers: Seq<ProviderView>)
    requires
        providers_valid(providers),
    ensures
        decode_all(encode_all(providers, provider_encoder()), provider_decoder()) == Ok::<
            Seq<ProviderView>,
            ErrorView,
        >(providers),
{
    assert forall|i: int| 0 <= i < providers.len() implies provider_decoder()(
        provider_encoder()(#[trigger] providers[i]),
    ) == Ok::<ProviderView, ErrorView>(providers[i]) by {
        lemma_provider_round_trip(providers[i]);
    }
    lemma_decode_all_round_trip(providers, provider_encoder(), provider_decoder());
}

/// What is read is valid.
pub proof fn lemma_providers_from_json_valid(items: Seq<JsonView>)
    ensures
        decode_all(items, provider_decoder()) matches Ok(providers) ==> providers_valid(providers),
{
    assert forall|j: JsonView| (#[trigger] provider_decoder()(j)) matches Ok(p) ==> p.is_valid() by {
        lemma_provider_from_json_valid(j);
    }
    lemma_decode_all_each(items, provider_decoder(), |p: ProviderView| p.is_valid());
}

impl Clone for Provider {
    fn clone(&self) -> (r: Self)
        ensures
            r@ == self@,
    {
        Provider {
            name: self.name.clone(),
            description: clone_text(&self.description),
            roles: self.roles.clone(),
            url: clone_text(&self.url),
            additional_fields: clone_members(&self.additional_fields),
        }
    }
}

/// The four names of `provider_fields`.
fn provider_field_names() -> (names: Vec<String>)
    ensures
        names.deep_view() == provider_fields(),
{
    let mut names: Vec<String> = Vec::new();
    names.push("name".to_owned());
    names.push("description".to_owned());
    names.push("roles".to_owned());
    names.push("url".to_owned());
    assert(names.deep_view() =~= provider_fields());
    names
}

impl Provider {
    /// A provider with a name and nothing else.
    pub fn new(name: &str) -> (p: Provider)
        ensures
            p@ == (ProviderView {
                name: name@,
                description: None,
                roles: Seq::empty(),
                url: None,
                additional_fields: Seq::empty(),
            }),
            p@.is_valid(),
    {
        let p = Provider {
            name: name.to_owned(),
            description: None,
            roles: TextSet::new(),
            url: None,
            additional_fields: Vec::new(),
        };
        assert(p.additional_fields.deep_view() =~= Seq::empty());
        p
    }

    /// Writes the provider as JSON.
    pub fn to_json(&self) -> (j: Json)
        ensures
            j@ == self@.to_json(),
    {
        let mut members: Vec<(String, Json)> = Vec::new();
        assert(members.deep_view() =~= Seq::empty());
        push_string(&mut members, "name", &self.name);
        push_optional_string(&mut members, "description", &self.description);
        if !self.roles.is_empty() {
            push_member(&mut members, "roles", self.roles.to_json());
        }
        push_optional_string(&mut members, "url", &self.url);
        push_members(&mut members, &self.additional_fields);
        Json::Object(members)
    }

    /// Reads a provider from JSON. The value has to be an object that
    /// holds no key twice, with the string `name`; `description` and `url`
    /// are strings where they are there, `roles` an array of strings. Of
    /// several faults the first in this order is reported.
    pub fn from_json(j: &Json) -> (r: Result<Provider, Error>)
        ensures
            match r {
                Ok(p) => ProviderView::from_json(j@) == Ok::<ProviderView, ErrorView>(p@)
                    && p@.is_valid(),
                Err(e) => ProviderView::from_json(j@) == Err::<ProviderView, ErrorView>(e@),
            },
    {
        let members = match j {
            Json::Object(members) => members,
            _ => {
                return Err(Error::NotAnObject);
            },
        };
        if !has_distinct_keys(members) {
            return Err(Error::DuplicateField);
        }
        let name = match read_string(members, "name") {
            Ok(s) => s,
            Err(e) => {
                return Err(e);
            },
        };
        let description = match read_optional_string(members, "description") {
            Ok(s) => s,
            Err(e) => {
                return Err(e);
            },
        };
        let roles = match read_string_list(members, "roles") {
            Ok(texts) => TextSet::from_texts(texts),
            Err(e) => {
                return Err(e);
            },
        };
        let url = match read_optional_string(members, "url") {
            Ok(s) => s,
            Err(e) => {
                return Err(e);
            },
        };
        let names = provider_field_names();
        let additional_fields = rest(members, &names);
        proof {
            lemma_provider_from_json_valid(j@);
        }
        Ok(Provider { name, description, roles, url, additional_fields })
    }
}

/// Reads the items of a `providers` array: every item a provider.
pub fn providers_from_json(items: &Vec<Json>) -> (r: Result<Vec<Provider>, Error>)
    ensures
        match r {
            Ok(providers) => decode_all(items.deep_view(), provider_decoder()) == Ok::<
                Seq<ProviderView>,
                ErrorView,
            >(providers.deep_view()) && providers_valid(providers.deep_view()),
            Err(e) => decode_all(items.deep_view(), provider_decoder()) == Err::<
                Seq<ProviderView>,
                ErrorView,
            >(e@),
        },
{
    let ghost js = items.deep_view();
    let mut out: Vec<Provider> = Vec::new();
    let mut i: usize = 0;
    assert(out.deep_view() =~= Seq::empty());
    assert(js.take(0) =~= Seq::empty());
    while i < items.len()
        invariant
            i <= items.len(),
            js == items.deep_view(),
            decode_all(js.take(i as int), provider_decoder()) == Ok::<
                Seq<ProviderView>,
                ErrorView,
            >(out.deep_view()),
        decreases items.len() - i,
    {
        proof {
            assert(js.take(i + 1) =~= js.take(i as int).push(js[i as int]));
            lemma_decode_all_push(js.take(i as int), js[i as int], provider_decoder());
        }
        match Provider::from_json(&items[i]) {
            Ok(p) => {
                let ghost before = out.deep_view();
                out.push(p);
                assert(out.deep_view() =~= before.push(p@));
            },
            Err(e) => {
                proof {
                    lemma_decode_all_prefix(js, i + 1, provider_decoder());
                }
                return Err(e);
            },
        }
        i += 1;
    }
    proof {
        assert(js.take(i as int) =~= js);
        lemma_providers_from_json_valid(js);
    }
    Ok(out)
}

/// Writes providers as a JSON array.
pub fn providers_to_json(providers: &Vec<Provider>) -> (j: Json)
    ensures
        j@ == JsonView::Array(encode_all(providers.deep_view(), provider_encoder())),
{
    let mut out: Vec<Json> = Vec::new();
    let mut i: usize = 0;
    while i < providers.len()
        invariant
            i <= providers.len(),
            out.len() == i,
            forall|k: int| 0 <= k < i ==> out@[k]@ == providers@[k]@.to_json(),
        decreases providers.len() - i,
    {
        out.push(providers[i].to_json());
        i += 1;
    }
    assert(out.deep_view() =~= encode_all(providers.deep_view(), provider_encoder()));
    Json::Array(out)
}

/// Copies providers.
pub fn clone_providers(providers: &Vec<Provider>) -> (r: Vec<Provider>)
    ensures
        r.deep_view() == providers.deep_view(),
{
    let mut out: Vec<Provider> = Vec::new();
    let mut i: usize = 0;
    while i < providers.len()
        invariant
            i <= providers.len(),
            out.len() == i,
            forall|k: int| 0 <= k < i ==> out@[k]@ == providers@[k]@,
        decreases providers.len() - i,
    {
        out.push(providers[i].clone());
        i += 1;
    }
    assert(out.deep_view() =~= providers.deep_view());
    out
}

impl Provider {
    /// Tells whether the provider is valid: whether it can be written and
    /// read back as it is.
    pub fn is_valid(&self) -> (r: bool)
        ensures
            r == self@.is_valid(),
    {
        self.roles.is_set() && can_stand_beside(&self.additional_fields, &provider_field_names())
    }
}

/// Tells whether every provider is valid.
pub fn providers_are_valid(items: &Vec<Provider>) -> (r: bool)
    ensures
        r == providers_valid(items.deep_view()),
{
    let ghost xs = items.deep_view();
    let mut i: usize = 0;
    while i < items.len()
        invariant
            i <= items.len(),
            xs == items.deep_view(),
            forall|k: int| 0 <= k < i ==> (#[trigger] xs[k]).is_valid(),
        decreases items.len() - i,
    {
        if !items[i].is_valid() {
            assert(!xs[i as int].is_valid());
            return false;
        }
        i += 1;
    }
    true
}

} // verus!
