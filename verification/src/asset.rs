//! Assets: named references to the files that belong to a document.

use crate::error::{Error, ErrorView};
use crate::field::{
    clone_text, decode_values, distinct_names, encode_values, lemma_decode_values_each,
    lemma_decode_values_prefix, lemma_decode_values_push, lemma_decode_values_round_trip,
    lemma_names, lemma_strings_round_trip, optional_string, optional_string_json, push_member,
    push_members, push_optional_string, push_string, read_optional_string, read_string,
    read_string_list, required_string, string_list, strings_json, unless_empty,
};
use crate::json::{
    can_stand_beside, clone_members, distinct_keys, has_distinct_keys, keys_outside, keys_within,
    lemma_known_then_rest, lemma_without_keys, member, put, rest, without, Json, JsonView, Members,
};
use crate::text_set::{collect, lemma_collect, lemma_collect_set, TextSet};
use vstd::prelude::*;

verus! {

broadcast use crate::json::group_json_view;

/// A reference to a file that belongs to a document.
#[derive(Debug, PartialEq)]
pub struct Asset {
    /// Where the file is.
    pub href: String,
    /// A human-readable title.
    pub title: Option<String>,
    /// What the file holds.
    pub description: Option<String>,
    /// The media type of the file.
    pub media_type: Option<String>,
    /// What the file is for.
    pub roles: TextSet,
    /// Every other member of the asset's JSON object, kept verbatim.
    pub additional_fields: Vec<(String, Json)>,
}

/// The mathematical model of an [`Asset`].
pub struct AssetView {
    pub href: Seq<char>,
    pub title: Option<Seq<char>>,
    pub description: Option<Seq<char>>,
    pub media_type: Option<Seq<char>>,
    pub roles: Seq<Seq<char>>,
    pub additional_fields: Members,
}

impl DeepView for Asset {
    type V = AssetView;

    open spec fn deep_view(&self) -> AssetView {
        AssetView {
            href: self.href@,
            title: self.title.deep_view(),
            description: self.description.deep_view(),
            media_type: self.media_type.deep_view(),
            roles: self.roles@,
            additional_fields: self.additional_fields.deep_view(),
        }
    }
}

impl View for Asset {
    type V = AssetView;

    open spec fn view(&self) -> AssetView {
        self.deep_view()
    }
}

/// The names of the members that an asset's JSON object gives a meaning to.
pub open spec fn asset_fields() -> Seq<Seq<char>> {
    seq!["href"@, "title"@, "description"@, "type"@, "roles"@]
}

impl AssetView {
    /// The roles form a set, the additional fields a mapping, and none of
    /// these fields shadows a member that the asset itself writes.
    pub open spec fn is_valid(self) -> bool {
        &&& self.roles.no_duplicates()
        &&& distinct_keys(self.additional_fields)
        &&& keys_outside(self.additional_fields, asset_fields())
    }

    /// The members that the typed fields are written as.
    pub open spec fn known_members(self) -> Members {
        put(
            put(
                put(
                    put(
                        Seq::<(Seq<char>, JsonView)>::empty().push(
                            ("href"@, JsonView::String(self.href)),
                        ),
                        "title"@,
                        optional_string_json(self.title),
                    ),
                    "description"@,
                    optional_string_json(self.description),
                ),
                "type"@,
                optional_string_json(self.media_type),
            ),
            "roles"@,
            unless_empty(self.roles, strings_json(self.roles)),
        )
    }

    /// The JSON that the asset is written as.
    pub open spec fn to_json(self) -> JsonView {
        JsonView::Object(self.known_members() + self.additional_fields)
    }

    /// The asset that a JSON value is read as, or why it is none.
    pub open spec fn from_json(j: JsonView) -> Result<AssetView, ErrorView> {
        if !(j is Object) {
            Err(ErrorView::NotAnObject)
        } else {
            let ms = j->Object_0;
            if !distinct_keys(ms) {
                Err(ErrorView::DuplicateField)
            } else if required_string(ms, "href"@) is Err {
                Err(required_string(ms, "href"@)->Err_0)
            } else if optional_string(ms, "title"@) is Err {
                Err(optional_string(ms, "title"@)->Err_0)
            } else if optional_string(ms, "description"@) is Err {
                Err(optional_string(ms, "description"@)->Err_0)
            } else if optional_string(ms, "type"@) is Err {
                Err(optional_string(ms, "type"@)->Err_0)
            } else if string_list(ms, "roles"@) is Err {
                Err(string_list(ms, "roles"@)->Err_0)
            } else {
                Ok(
                    AssetView {
                        href: required_string(ms, "href"@)->Ok_0,
                        title: optional_string(ms, "title"@)->Ok_0,
                        description: optional_string(ms, "description"@)->Ok_0,
                        media_type: optional_string(ms, "type"@)->Ok_0,
                        roles: collect(string_list(ms, "roles"@)->Ok_0),
                        additional_fields: without(ms, asset_fields()),
                    },
                )
            }
        }
    }
}

/// Each name of `asset_fields` is in it.
pub proof fn lemma_asset_fields()
    ensures
        asset_fields().contains("href"@),
        asset_fields().contains("title"@),
        asset_fields().contains("description"@),
        asset_fields().contains("type"@),
        asset_fields().contains("roles"@),
{
    assert(asset_fields()[0] == "href"@);
    assert(asset_fields()[1] == "title"@);
    assert(asset_fields()[2] == "description"@);
    assert(asset_fields()[3] == "type"@);
    assert(asset_fields()[4] == "roles"@);
}

/// What the known members of an asset hold, whatever its optional fields
/// are.
pub proof fn lemma_asset_known_members(a: AssetView)
    ensures
        distinct_keys(a.known_members()),
        keys_within(a.known_members(), asset_fields()),
        member(a.known_members(), "href"@) == Some(JsonView::String(a.href)),
        member(a.known_members(), "title"@) == optional_string_json(a.title),
        member(a.known_members(), "description"@) == optional_string_json(a.description),
        member(a.known_members(), "type"@) == optional_string_json(a.media_type),
        member(a.known_members(), "roles"@) == unless_empty(a.roles, strings_json(a.roles)),
{
    broadcast use {
        crate::json::lemma_member_push,
        crate::json::lemma_has_key_push,
        crate::json::lemma_distinct_push,
        crate::json::lemma_keys_within_push,
    };

    lemma_names();
    lemma_asset_fields();
}

/// A valid asset that is written and read back is the same asset.
pub proof fn lemma_asset_round_trip(a: AssetView)
    requires
        a.is_valid(),
    ensures
        AssetView::from_json(a.to_json()) == Ok::<AssetView, ErrorView>(a),
{
    lemma_asset_known_members(a);
    lemma_asset_fields();
    lemma_known_then_rest(a.known_members(), a.additional_fields, asset_fields());
    lemma_strings_round_trip(a.roles);
    lemma_collect_set(a.roles);
    if a.roles.len() == 0 {
        assert(a.roles =~= Seq::empty());
    }
}

/// What is read is valid.
pub proof fn lemma_asset_from_json_valid(j: JsonView)
    ensures
        AssetView::from_json(j) matches Ok(a) ==> a.is_valid(),
{
    if j is Object {
        let ms = j->Object_0;
        lemma_without_keys(ms, asset_fields());
        if string_list(ms, "roles"@) is Ok {
            lemma_collect(string_list(ms, "roles"@)->Ok_0);
        }
    }
}

/// Reading an asset, as a function.
pub open spec fn asset_decoder() -> spec_fn(JsonView) -> Result<AssetView, ErrorView> {
    |j: JsonView| AssetView::from_json(j)
}

/// Writing an asset, as a function.
pub open spec fn asset_encoder() -> spec_fn(AssetView) -> JsonView {
    |a: AssetView| a.to_json()
}

/// The assets under their names, as the typed documents model them.
pub type AssetsView = Seq<(Seq<char>, AssetView)>;

/// No name is used twice, and every asset is valid.
pub open spec fn assets_valid(assets: AssetsView) -> bool {
    &&& distinct_names(assets)
    &&& forall|i: int| 0 <= i < assets.len() ==> (#[trigger] assets[i]).1.is_valid()
}

/// The assets that the members of an `assets` object are read as.
pub open spec fn assets_from_members(ms: Members) -> Result<AssetsView, ErrorView> {
    if !distinct_keys(ms) {
        Err(ErrorView::DuplicateField)
    } else {
        decode_values(ms, asset_decoder())
    }
}

/// The members that assets are written as.
pub open spec fn assets_to_members(assets: AssetsView) -> Members {
    encode_values(assets, asset_encoder())
}

/// Valid assets that are written and read back are the same assets.
pub proof fn lemma_assets_round_trip(assets: AssetsView)
    requires
        assets_valid(assets),
    ensures
        assets_from_members(assets_to_members(assets)) == Ok::<AssetsView, ErrorView>(assets),
{
    let ms = assets_to_members(assets);
    assert forall|i: int, j: int| 0 <= i < j < ms.len() implies (#[trigger] ms[i]).0 != (
    #[trigger] ms[j]).0 by {
        assert(assets[i].0 != assets[j].0);
    }
    assert forall|i: int| 0 <= i < assets.len() implies asset_decoder()(
        asset_encoder()((#[trigger] assets[i]).1),
    ) == Ok::<AssetView, ErrorView>(assets[i].1) by {
        lemma_asset_round_trip(assets[i].1);
    }
    lemma_decode_values_round_trip(assets, asset_encoder(), asset_decoder());
}

/// What is read is valid.
pub proof fn lemma_assets_from_members_valid(ms: Members)
    ensures
        assets_from_members(ms) matches Ok(assets) ==> assets_valid(assets),
{
    assert forall|j: JsonView| (#[trigger] asset_decoder()(j)) matches Ok(a) ==> a.is_valid() by {
        lemma_asset_from_json_valid(j);
    }
    lemma_decode_values_each(ms, asset_decoder(), |a: AssetView| a.is_valid());
    if assets_from_members(ms) is Ok {
        let assets = assets_from_members(ms)->Ok_0;
        assert forall|i: int, j: int| 0 <= i < j < assets.len() implies (#[trigger] assets[i]).0
            != (#[trigger] assets[j]).0 by {
            assert(ms[i].0 != ms[j].0);
        }
    }
}

impl Clone for Asset {
    fn clone(&self) -> (r: Self)
        ensures
            r@ == self@,
    {
        Asset {
            href: self.href.clone(),
            title: clone_text(&self.title),
            description: clone_text(&self.description),
            media_type: clone_text(&self.media_type),
            roles: self.roles.clone(),
            additional_fields: clone_members(&self.additional_fields),
        }
    }
}

/// The five names of `asset_fields`.
fn asset_field_names() -> (names: Vec<String>)
    ensures
        names.deep_view() == asset_fields(),
{
    let mut names: Vec<String> = Vec::new();
    names.push("href".to_owned());
    names.push("title".to_owned());
    names.push("description".to_owned());
    names.push("type".to_owned());
    names.push("roles".to_owned());
    assert(names.deep_view() =~= asset_fields());
    names
}

impl Asset {
    /// An asset at `href` with nothing else.
    pub fn new(href: &str) -> (a: Asset)
        ensures
            a@ == (AssetView {
                href: href@,
                title: None,
                description: None,
                media_type: None,
                roles: Seq::empty(),
                additional_fields: Seq::empty(),
            }),
            a@.is_valid(),
    {
        let a = Asset {
            href: href.to_owned(),
            title: None,
            description: None,
            media_type: None,
            roles: TextSet::new(),
            additional_fields: Vec::new(),
        };
        assert(a.additional_fields.deep_view() =~= Seq::empty());
        a
    }

    /// Writes the asset as JSON.
    pub fn to_json(&self) -> (j: Json)
        ensures
            j@ == self@.to_json(),
    {
        let mut members: Vec<(String, Json)> = Vec::new();
        assert(members.deep_view() =~= Seq::empty());
        push_string(&mut members, "href", &self.href);
        push_optional_string(&mut members, "title", &self.title);
        push_optional_string(&mut members, "description", &self.description);
        push_optional_string(&mut members, "type", &self.media_type);
        if !self.roles.is_empty() {
            push_member(&mut members, "roles", self.roles.to_json());
        }
        push_members(&mut members, &self.additional_fields);
        Json::Object(members)
    }

    /// Reads an asset from JSON. The value has to be an object that holds
    /// no key twice, with the string `href`; `title`, `description` and
    /// `type` are strings where they are there, `roles` an array of
    /// strings. Of several faults the first in this order is reported.
    pub fn from_json(j: &Json) -> (r: Result<Asset, Error>)
        ensures
            match r {
                Ok(a) => AssetView::from_json(j@) == Ok::<AssetView, ErrorView>(a@)
                    && a@.is_valid(),
                Err(e) => AssetView::from_json(j@) == Err::<AssetView, ErrorView>(e@),
            },
    {
        let members = match j {
            Json::Object(members) => members,
            _ => {
                return Err(Error::NotAnObject);
            },
        };
        if !has_distinct_keys(members) {
            return Err(Error::DuplicateField);
        }
        let href = match read_string(members, "href") {
            Ok(s) => s,
            Err(e) => {
                return Err(e);
            },
        };
        let title = match read_optional_string(members, "title") {
            Ok(s) => s,
            Err(e) => {
                return Err(e);
            },
        };
        let description = match read_optional_string(members, "description") {
            Ok(s) => s,
            Err(e) => {
                return Err(e);
            },
        };
        let media_type = match read_optional_string(members, "type") {
            Ok(s) => s,
            Err(e) => {
                return Err(e);
            },
        };
        let roles = match read_string_list(members, "roles") {
            Ok(texts) => TextSet::from_texts(texts),
            Err(e) => {
                return Err(e);
            },
        };
        let names = asset_field_names();
        let additional_fields = rest(members, &names);
        proof {
            lemma_asset_from_json_valid(j@);
        }
        Ok(Asset { href, title, description, media_type, roles, additional_fields })
    }
}

/// Reads the members of an `assets` object: no key twice, every value an
/// asset.
pub fn assets_from_json(members: &Vec<(String, Json)>) -> (r: Result<Vec<(String, Asset)>, Error>)
    ensures
        match r {
            Ok(assets) => assets_from_members(members.deep_view()) == Ok::<AssetsView, ErrorView>(
                assets.deep_view(),
            ) && assets_valid(assets.deep_view()),
            Err(e) => assets_from_members(members.deep_view()) == Err::<AssetsView, ErrorView>(e@),
        },
{
    if !has_distinct_keys(members) {
        return Err(Error::DuplicateField);
    }
    let ghost ms = members.deep_view();
    let mut out: Vec<(String, Asset)> = Vec::new();
    let mut i: usize = 0;
    assert(out.deep_view() =~= Seq::empty());
    assert(ms.take(0) =~= Seq::empty());
    while i < members.len()
        invariant
            i <= members.len(),
            ms == members.deep_view(),
            distinct_keys(ms),
            decode_values(ms.take(i as int), asset_decoder()) == Ok::<AssetsView, ErrorView>(
                out.deep_view(),
            ),
        decreases members.len() - i,
    {
        proof {
            assert(ms.take(i + 1) =~= ms.take(i as int).push(ms[i as int]));
            lemma_decode_values_push(ms.take(i as int), ms[i as int], asset_decoder());
        }
        match Asset::from_json(&members[i].1) {
            Ok(a) => {
                let ghost before = out.deep_view();
                out.push((members[i].0.clone(), a));
                assert(out.deep_view() =~= before.push((ms[i as int].0, a@)));
            },
            Err(e) => {
                proof {
                    lemma_decode_values_prefix(ms, i + 1, asset_decoder());
                }
                return Err(e);
            },
        }
        i += 1;
    }
    proof {
        assert(ms.take(i as int) =~= ms);
        lemma_assets_from_members_valid(ms);
    }
    Ok(out)
}

/// Writes assets as the members of an `assets` object.
pub fn assets_to_json(assets: &Vec<(String, Asset)>) -> (r: Vec<(String, Json)>)
    ensures
        r.deep_view() == assets_to_members(assets.deep_view()),
{
    let mut out: Vec<(String, Json)> = Vec::new();
    let mut i: usize = 0;
    while i < assets.len()
        invariant
            i <= assets.len(),
            out.len() == i,
            forall|k: int|
                0 <= k < i ==> out@[k].0@ == assets@[k].0@ && out@[k].1@ == assets@[k].1@.to_json(),
        decreases assets.len() - i,
    {
        out.push((assets[i].0.clone(), assets[i].1.to_json()));
        i += 1;
    }
    assert(out.deep_view() =~= assets_to_members(assets.deep_view()));
    out
}

/// Copies assets.
pub fn clone_assets(assets: &Vec<(String, Asset)>) -> (r: Vec<(String, Asset)>)
    ensures
        r.deep_view() == assets.deep_view(),
{
    let mut out: Vec<(String, Asset)> = Vec::new();
    let mut i: usize = 0;
    while i < assets.len()
        invariant
            i <= assets.len(),
            out.len() == i,
            forall|k: int| 0 <= k < i ==> out@[k].deep_view() == assets@[k].deep_view(),
        decreases assets.len() - i,
    {
        out.push((assets[i].0.clone(), assets[i].1.clone()));
        i += 1;
    }
    assert(out.deep_view() =~= assets.deep_view());
    out
}

/// The asset under the first entry with the name `key`.
pub open spec fn asset_named(assets: AssetsView, key: Seq<char>) -> Option<AssetView>
    decreases assets.len(),
{
    if assets.len() == 0 {
        None
    } else {
        match asset_named(assets.drop_last(), key) {
            Some(a) => Some(a),
            None => if assets.last().0 == key {
                Some(assets.last().1)
            } else {
                None
            },
        }
    }
}

/// The entries whose name is not `key`, in order.
pub open spec fn without_asset(assets: AssetsView, key: Seq<char>) -> AssetsView
    decreases assets.len(),
{
    if assets.len() == 0 {
        Seq::empty()
    } else if assets.last().0 == key {
        without_asset(assets.drop_last(), key)
    } else {
        without_asset(assets.drop_last(), key).push(assets.last())
    }
}

/// The entries with `asset` under the name `key`, at the end, and no other
/// entry of that name.
pub open spec fn with_asset(assets: AssetsView, key: Seq<char>, asset: AssetView) -> AssetsView {
    without_asset(assets, key).push((key, asset))
}

/// An asset that is found in a prefix is found there in the whole list.
pub proof fn lemma_asset_named_prefix(assets: AssetsView, k: int, key: Seq<char>)
    requires
        0 <= k <= assets.len(),
        asset_named(assets.take(k), key) is Some,
    ensures
        asset_named(assets, key) == asset_named(assets.take(k), key),
    decreases assets.len() - k,
{
    if k < assets.len() {
        assert(assets.take(k + 1).drop_last() =~= assets.take(k));
        lemma_asset_named_prefix(assets, k + 1, key);
    } else {
        assert(assets.take(k) =~= assets);
    }
}

/// What is left without a name holds no entry of it and only entries that
/// were there, in their order; valid assets stay valid.
pub proof fn lemma_without_asset(assets: AssetsView, key: Seq<char>)
    ensures
        forall|i: int|
            0 <= i < without_asset(assets, key).len() ==> (#[trigger] without_asset(
                assets,
                key,
            )[i]).0 != key,
        forall|i: int|
            0 <= i < without_asset(assets, key).len() ==> exists|k: int|
                i <= k < assets.len() && assets[k] == #[trigger] without_asset(assets, key)[i],
        without_asset(assets, key).len() <= assets.len(),
        assets_valid(assets) ==> assets_valid(without_asset(assets, key)),
    decreases assets.len(),
{
    if assets.len() > 0 {
        let p = assets.drop_last();
        let w = without_asset(p, key);
        let r = without_asset(assets, key);
        lemma_without_asset(p, key);
        assert forall|i: int| 0 <= i < r.len() implies exists|k: int|
            i <= k < assets.len() && assets[k] == #[trigger] r[i] by {
            if i < w.len() {
                assert(w[i] == r[i]);
                let k = choose|k: int| i <= k < p.len() && p[k] == w[i];
                assert(assets[k] == r[i]);
            } else {
                assert(assets[assets.len() - 1] == r[i]);
            }
        }
        assert forall|i: int| 0 <= i < r.len() implies (#[trigger] r[i]).0 != key by {
            if i < w.len() {
                assert(w[i] == r[i]);
            }
        }
        if assets_valid(assets) {
            assert forall|i: int, j: int| 0 <= i < j < p.len() implies (#[trigger] p[i]).0 != (
            #[trigger] p[j]).0 by {
                assert(assets[i].0 != assets[j].0);
            }
            assert forall|i: int| 0 <= i < p.len() implies (#[trigger] p[i]).1.is_valid() by {
                assert(assets[i].1.is_valid());
            }
            assert(assets_valid(w));
            assert forall|i: int| 0 <= i < r.len() implies (#[trigger] r[i]).1.is_valid() by {
                if i < w.len() {
                    assert(w[i].1.is_valid());
                } else {
                    assert(assets[assets.len() - 1].1.is_valid());
                }
            }
            assert forall|i: int, j: int| 0 <= i < j < r.len() implies (#[trigger] r[i]).0 != (
            #[trigger] r[j]).0 by {
                if j < w.len() {
                    assert(w[i].0 != w[j].0);
                } else {
                    assert(w[i] == r[i]);
                    let k = choose|k: int| i <= k < p.len() && p[k] == w[i];
                    assert(assets[k].0 != assets[assets.len() - 1].0);
                }
            }
        }
    }
}

/// Setting a valid asset among valid assets leaves valid assets.
pub proof fn lemma_with_asset(assets: AssetsView, key: Seq<char>, asset: AssetView)
    requires
        assets_valid(assets),
        asset.is_valid(),
    ensures
        assets_valid(with_asset(assets, key, asset)),
        asset_named(with_asset(assets, key, asset), key) == Some(asset),
{
    let w = without_asset(assets, key);
    let r = with_asset(assets, key, asset);
    lemma_without_asset(assets, key);
    assert(r.drop_last() =~= w);
    lemma_asset_named_absent(w, key);
    assert forall|i: int| 0 <= i < r.len() implies (#[trigger] r[i]).1.is_valid() by {
        if i < w.len() {
            assert(w[i].1.is_valid());
        }
    }
    assert forall|i: int, j: int| 0 <= i < j < r.len() implies (#[trigger] r[i]).0 != (
    #[trigger] r[j]).0 by {
        if j < w.len() {
            assert(w[i].0 != w[j].0);
        } else {
            assert(w[i].0 != key);
        }
    }
}

/// Where no entry has the name, no asset is found.
pub proof fn lemma_asset_named_absent(assets: AssetsView, key: Seq<char>)
    requires
        forall|i: int| 0 <= i < assets.len() ==> (#[trigger] assets[i]).0 != key,
    ensures
        asset_named(assets, key) is None,
    decreases assets.len(),
{
    if assets.len() > 0 {
        let p = assets.drop_last();
        assert forall|i: int| 0 <= i < p.len() implies (#[trigger] p[i]).0 != key by {
            assert(assets[i].0 != key);
        }
        lemma_asset_named_absent(p, key);
        assert(assets[assets.len() - 1].0 != key);
    }
}

/// Finds the asset with the name `key`.
pub fn find_asset<'a>(assets: &'a Vec<(String, Asset)>, key: &str) -> (r: Option<&'a Asset>)
    ensures
        match r {
            Some(a) => asset_named(assets.deep_view(), key@) == Some(a@),
            None => asset_named(assets.deep_view(), key@) is None,
        },
{
    let wanted = key.to_owned();
    let ghost xs = assets.deep_view();
    let mut i: usize = 0;
    assert(xs.take(0) =~= Seq::empty());
    while i < assets.len()
        invariant
            i <= assets.len(),
            wanted@ == key@,
            xs == assets.deep_view(),
            asset_named(xs.take(i as int), key@) is None,
        decreases assets.len() - i,
    {
        proof {
            assert(xs.take(i + 1).drop_last() =~= xs.take(i as int));
        }
        if assets[i].0 == wanted {
            proof {
                lemma_asset_named_prefix(xs, i + 1, key@);
            }
            return Some(&assets[i].1);
        }
        i += 1;
    }
    proof {
        assert(xs.take(i as int) =~= xs);
    }
    None
}

/// Removes the asset with the name `key`.
pub fn remove_asset(assets: &mut Vec<(String, Asset)>, key: &str)
    ensures
        final(assets).deep_view() == without_asset(old(assets).deep_view(), key@),
        assets_valid(old(assets).deep_view()) ==> assets_valid(final(assets).deep_view()),
{
    let wanted = key.to_owned();
    let ghost xs = assets.deep_view();
    let mut out: Vec<(String, Asset)> = Vec::new();
    let mut i: usize = 0;
    assert(xs.take(0) =~= Seq::empty());
    assert(out.deep_view() =~= Seq::empty());
    while i < assets.len()
        invariant
            i <= assets.len(),
            wanted@ == key@,
            xs == assets.deep_view(),
            out.deep_view() == without_asset(xs.take(i as int), key@),
        decreases assets.len() - i,
    {
        proof {
            assert(xs.take(i + 1).drop_last() =~= xs.take(i as int));
        }
        if assets[i].0 != wanted {
            let ghost before = out.deep_view();
            out.push((assets[i].0.clone(), assets[i].1.clone()));
            assert(out.deep_view() =~= before.push(xs[i as int]));
        }
        i += 1;
    }
    proof {
        assert(xs.take(i as int) =~= xs);
        lemma_without_asset(xs, key@);
    }
    *assets = out;
}

/// Sets the asset with the name `key`: an asset that had the name gives
/// way to it.
pub fn set_asset(assets: &mut Vec<(String, Asset)>, key: &str, asset: Asset)
    ensures
        final(assets).deep_view() == with_asset(old(assets).deep_view(), key@, asset@),
        assets_valid(old(assets).deep_view()) && asset@.is_valid() ==> assets_valid(
            final(assets).deep_view(),
        ),
{
    remove_asset(assets, key);
    let ghost before = assets.deep_view();
    let ghost av = asset@;
    assets.push((key.to_owned(), asset));
    assert(assets.deep_view() =~= before.push((key@, av)));
    proof {
        if assets_valid(old(assets).deep_view()) && av.is_valid() {
            lemma_with_asset(old(assets).deep_view(), key@, av);
        }
    }
}

impl Asset {
    /// Tells whether the asset is valid: whether it can be written and
    /// read back as it is.
    pub fn is_valid(&self) -> (r: bool)
        ensures
            r == self@.is_valid(),
    {
        self.roles.is_set() && can_stand_beside(&self.additional_fields, &asset_field_names())
    }
}

/// Tells whether no name is used twice and every asset is valid.
pub fn assets_are_valid(assets: &Vec<(String, Asset)>) -> (r: bool)
    ensures
        r == assets_valid(assets.deep_view()),
{
    let ghost xs = assets.deep_view();
    let mut j: usize = 0;
    while j < assets.len()
        invariant
            j <= assets.len(),
            xs == assets.deep_view(),
            forall|a: int, b: int| 0 <= a < b < j ==> (#[trigger] xs[a]).0 != (#[trigger] xs[b]).0,
            forall|k: int| 0 <= k < j ==> (#[trigger] xs[k]).1.is_valid(),
        decreases assets.len() - j,
    {
        if !assets[j].1.is_valid() {
            assert(!xs[j as int].1.is_valid());
            return false;
        }
        let mut i: usize = 0;
        while i < j
            invariant
                i <= j,
                j < assets.len(),
                xs == assets.deep_view(),
                forall|a: int| 0 <= a < i ==> (#[trigger] xs[a]).0 != xs[j as int].0,
            decreases j - i,
        {
            if assets[i].0 == assets[j].0 {
                assert(xs[i as int].0 == xs[j as int].0);
                return false;
            }
            i += 1;
        }
        j += 1;
    }
    true
}

} // verus!
