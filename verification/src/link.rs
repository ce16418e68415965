//! Links: typed references from one document to another location.

use crate::error::{Error, ErrorView};
use crate::field::{
    clone_text, decode_all, encode_all, lemma_decode_all_each, lemma_decode_all_prefix,
    lemma_decode_all_push, lemma_decode_all_round_trip, lemma_names, optional_string, optional_string_json, push_members, push_optional_string, push_string,
    read_optional_string, read_string, required_string,
};
use crate::json::{
    can_stand_beside, clone_members, distinct_keys, has_distinct_keys, keys_outside, keys_within,
    lemma_known_then_rest, lemma_without_keys, member, put, rest, without, Json, JsonView, Members,
};
use vstd::prelude::*;

verus! {

broadcast use crate::json::group_json_view;

/// A reference to another document or file, tagged with a relation type.
#[derive(Debug, PartialEq)]
pub struct Link {
    /// Where the link points.
    pub href: String,
    /// How the target relates to the document that owns the link.
    pub rel: String,
    /// The media type of the target.
    pub media_type: Option<String>,
    /// A human-readable title.
    pub title: Option<String>,
    /// Every other member of the link's JSON object, kept verbatim.
    pub additional_fields: Vec<(String, Json)>,
}

/// The mathematical model of a [`Link`].
pub struct LinkView {
    pub href: Seq<char>,
    pub rel: Seq<char>,
    pub media_type: Option<Seq<char>>,
    pub title: Option<Seq<char>>,
    pub additional_fields: Members,
}

impl DeepView for Link {
    type V = LinkView;

    open spec fn deep_view(&self) -> LinkView {
        LinkView {
            href: self.href@,
            rel: self.rel@,
            media_type: self.media_type.deep_view(),
            title: self.title.deep_view(),
            additional_fields: self.additional_fields.deep_view(),
        }
    }
}

impl View for Link {
    type V = LinkView;

    open spec fn view(&self) -> LinkView {
        self.deep_view()
    }
}

/// The names of the members that a link's JSON object gives a meaning to.
pub open spec fn link_fields() -> Seq<Seq<char>> {
    seq!["href"@, "rel"@, "type"@, "title"@]
}

impl LinkView {
    /// The additional fields form a mapping, and none of them shadows a
    /// member that the link itself writes.
    pub open spec fn is_valid(self) -> bool {
        &&& distinct_keys(self.additional_fields)
        &&& keys_outside(self.additional_fields, link_fields())
    }

    /// The members that the typed fields are written as.
    pub open spec fn known_members(self) -> Members {
        put(
            put(
                Seq::<(Seq<char>, JsonView)>::empty().push(
                    ("href"@, JsonView::String(self.href)),
                ).push(("rel"@, JsonView::String(self.rel))),
                "type"@,
                optional_string_json(self.media_type),
            ),
            "title"@,
            optional_string_json(self.title),
        )
    }

    /// The JSON that the link is written as.
    pub open spec fn to_json(self) -> JsonView {
        JsonView::Object(self.known_members() + self.additional_fields)
    }

    /// The link that a JSON value is read as, or why it is none.
    pub open spec fn from_json(j: JsonView) -> Result<LinkView, ErrorView> {
        if !(j is Object) {
            Err(ErrorView::NotAnObject)
        } else {
            let ms = j->Object_0;
            if !distinct_keys(ms) {
                Err(ErrorView::DuplicateField)
            } else if required_string(ms, "href"@) is Err {
                Err(required_string(ms, "href"@)->Err_0)
            } else if required_string(ms, "rel"@) is Err {
                Err(required_string(ms, "rel"@)->Err_0)
            } else if optional_string(ms, "type"@) is Err {
                Err(optional_string(ms, "type"@)->Err_0)
            } else if optional_string(ms, "title"@) is Err {
                Err(optional_string(ms, "title"@)->Err_0)
            } else {
                Ok(
                    LinkView {
                        href: required_string(ms, "href"@)->Ok_0,
                        rel: required_string(ms, "rel"@)->Ok_0,
                        media_type: optional_string(ms, "type"@)->Ok_0,
                        title: optional_string(ms, "title"@)->Ok_0,
                        additional_fields: without(ms, link_fields()),
                    },
                )
            }
        }
    }
}

/// What the known members of a link hold, whatever its optional fields are.
pub proof fn lemma_link_known_members(l: LinkView)
    ensures
        distinct_keys(l.known_members()),
        keys_within(l.known_members(), link_fields()),
        member(l.known_members(), "href"@) == Some(JsonView::String(l.href)),
        member(l.known_members(), "rel"@) == Some(JsonView::String(l.rel)),
        member(l.known_members(), "type"@) == optional_string_json(l.media_type),
        member(l.known_members(), "title"@) == optional_string_json(l.title),
{
    broadcast use {
        crate::json::lemma_member_push,
        crate::json::lemma_has_key_push,
        crate::json::lemma_distinct_push,
        crate::json::lemma_keys_within_push,
    };

    lemma_names();
    lemma_link_fields();
}

/// Each name of `link_fields` is in it.
pub proof fn lemma_link_fields()
    ensures
        link_fields().contains("href"@),
        link_fields().contains("rel"@),
        link_fields().contains("type"@),
        link_fields().contains("title"@),
{
    assert(link_fields()[0] == "href"@);
    assert(link_fields()[1] == "rel"@);
    assert(link_fields()[2] == "type"@);
    assert(link_fields()[3] == "title"@);
}

/// A valid link that is written and read back is the same link.
pub proof fn lemma_link_round_trip(l: LinkView)
    requires
        l.is_valid(),
    ensures
        LinkView::from_json(l.to_json()) == Ok::<LinkView, ErrorView>(l),
{
    lemma_link_known_members(l);
    lemma_link_fields();
    lemma_known_then_rest(l.known_members(), l.additional_fields, link_fields());
}

/// What is read is valid.
pub proof fn lemma_link_from_json_valid(j: JsonView)
    ensures
        LinkView::from_json(j) matches Ok(l) ==> l.is_valid(),
{
    if j is Object {
        lemma_without_keys(j->Object_0, link_fields());
    }
}

impl Clone for Link {
    fn clone(&self) -> (r: Self)
        ensures
            r@ == self@,
    {
        Link {
            href: self.href.clone(),
            rel: self.rel.clone(),
            media_type: clone_text(&self.media_type),
            title: clone_text(&self.title),
            additional_fields: clone_members(&self.additional_fields),
        }
    }
}

/// The four names of `link_fields`.
fn link_field_names() -> (names: Vec<String>)
    ensures
        names.deep_view() == link_fields(),
{
    let mut names: Vec<String> = Vec::new();
    names.push("href".to_owned());
    names.push("rel".to_owned());
    names.push("type".to_owned());
    names.push("title".to_owned());
    assert(names.deep_view() =~= link_fields());
    names
}

impl Link {
    /// A link to `href` with the relation `rel` and nothing else.
    pub fn new(href: &str, rel: &str) -> (l: Link)
        ensures
            l@ == (LinkView {
                href: href@,
                rel: rel@,
                media_type: None,
                title: None,
                additional_fields: Seq::empty(),
            }),
            l@.is_valid(),
    {
        let l = Link {
            href: href.to_owned(),
            rel: rel.to_owned(),
            media_type: None,
            title: None,
            additional_fields: Vec::new(),
        };
        assert(l.additional_fields.deep_view() =~= Seq::empty());
        l
    }

    /// Writes the link as JSON.
    pub fn to_json(&self) -> (j: Json)
        ensures
            j@ == self@.to_json(),
    {
        let mut members: Vec<(String, Json)> = Vec::new();
        assert(members.deep_view() =~= Seq::empty());
        push_string(&mut members, "href", &self.href);
        push_string(&mut members, "rel", &self.rel);
        push_optional_string(&mut members, "type", &self.media_type);
        push_optional_string(&mut members, "title", &self.title);
        push_members(&mut members, &self.additional_fields);
        Json::Object(members)
    }

    /// Reads a link from JSON. The value has to be an object that holds no
    /// key twice, with the strings `href` and `rel`; `type` and `title` are
    /// strings where they are there. Of several faults the first in this
    /// order is reported.
    pub fn from_json(j: &Json) -> (r: Result<Link, Error>)
        ensures
            match r {
                Ok(l) => LinkView::from_json(j@) == Ok::<LinkView, ErrorView>(l@) && l@.is_valid(),
                Err(e) => LinkView::from_json(j@) == Err::<LinkView, ErrorView>(e@),
            },
    {
        let members = match j {
            Json::Object(members) => members,
            _ => {
                return Err(Error::NotAnObject);
            },
        };
        if !has_distinct_keys(members) {
            return Err(Error::DuplicateField);
        }
        let href = match read_string(members, "href") {
            Ok(s) => s,
            Err(e) => {
                return Err(e);
            },
        };
        let rel = match read_string(members, "rel") {
            Ok(s) => s,
            Err(e) => {
                return Err(e);
            },
        };
        let media_type = match read_optional_string(members, "type") {
            Ok(s) => s,
            Err(e) => {
                return Err(e);
            },
        };
        let title = match read_optional_string(members, "title") {
            Ok(s) => s,
            Err(e) => {
                return Err(e);
            },
        };
        let names = link_field_names();
        let additional_fields = rest(members, &names);
        proof {
            lemma_link_from_json_valid(j@);
        }
        Ok(Link { href, rel, media_type, title, additional_fields })
    }
}

/// Reading a link, as a function.
pub open spec fn link_decoder() -> spec_fn(JsonView) -> Result<LinkView, ErrorView> {
    |j: JsonView| LinkView::from_json(j)
}

/// Writing a link, as a function.
pub open spec fn link_encoder() -> spec_fn(LinkView) -> JsonView {
    |l: LinkView| l.to_json()
}

/// Every link is valid.
pub open spec fn links_valid(links: Seq<LinkView>) -> bool {
    forall|i: int| 0 <= i < links.len() ==> (#[trigger] links[i]).is_valid()
}

/// Valid links that are written and read back are the same links.
pub proof fn lemma_links_round_trip(links: Seq<LinkView>)
    requires
        links_valid(links),
    ensures
        decode_all(encode_all(links, link_encoder()), link_decoder()) == Ok::<
            Seq<LinkView>,
            ErrorView,
        >(links),
{
    assert forall|i: int| 0 <= i < links.len() implies link_decoder()(
        link_encoder()(#[trigger] links[i]),
    ) == Ok::<LinkView, ErrorView>(links[i]) by {
        lemma_link_round_trip(links[i]);
    }
    lemma_decode_all_round_trip(links, link_encoder(), link_decoder());
}

/// What is read is valid.
pub proof fn lemma_links_from_json_valid(items: Seq<JsonView>)
    ensures
        decode_all(items, link_decoder()) matches Ok(links) ==> links_valid(links),
{
    assert forall|j: JsonView| (#[trigger] link_decoder()(j)) matches Ok(l) ==> l.is_valid() by {
        lemma_link_from_json_valid(j);
    }
    lemma_decode_all_each(items, link_decoder(), |l: LinkView| l.is_valid());
}

/// Reads the items of a `links` array: every item a link.
pub fn links_from_json(items: &Vec<Json>) -> (r: Result<Vec<Link>, Error>)
    ensures
        match r {
            Ok(links) => decode_all(items.deep_view(), link_decoder()) == Ok::<
                Seq<LinkView>,
                ErrorView,
            >(links.deep_view()) && links_valid(links.deep_view()),
            Err(e) => decode_all(items.deep_view(), link_decoder()) == Err::<
                Seq<LinkView>,
                ErrorView,
            >(e@),
        },
{
    let ghost js = items.deep_view();
    let mut out: Vec<Link> = Vec::new();
    let mut i: usize = 0;
    assert(out.deep_view() =~= Seq::empty());
    assert(js.take(0) =~= Seq::empty());
    while i < items.len()
        invariant
            i <= items.len(),
            js == items.deep_view(),
            decode_all(js.take(i as int), link_decoder()) == Ok::<Seq<LinkView>, ErrorView>(
                out.deep_view(),
            ),
        decreases items.len() - i,
    {
        proof {
            assert(js.take(i + 1) =~= js.take(i as int).push(js[i as int]));
            lemma_decode_all_push(js.take(i as int), js[i as int], link_decoder());
        }
        match Link::from_json(&items[i]) {
            Ok(l) => {
                let ghost before = out.deep_view();
                out.push(l);
                assert(out.deep_view() =~= before.push(l@));
            },
            Err(e) => {
                proof {
                    lemma_decode_all_prefix(js, i + 1, link_decoder());
                }
                return Err(e);
            },
        }
        i += 1;
    }
    proof {
        assert(js.take(i as int) =~= js);
        lemma_links_from_json_valid(js);
    }
    Ok(out)
}

/// Writes links as a JSON array.
pub fn links_to_json(links: &Vec<Link>) -> (j: Json)
    ensures
        j@ == JsonView::Array(encode_all(links.deep_view(), link_encoder())),
{
    let mut out: Vec<Json> = Vec::new();
    let mut i: usize = 0;
    while i < links.len()
        invariant
            i <= links.len(),
            out.len() == i,
            forall|k: int| 0 <= k < i ==> out@[k]@ == links@[k]@.to_json(),
        decreases links.len() - i,
    {
        out.push(links[i].to_json());
        i += 1;
    }
    assert(out.deep_view() =~= encode_all(links.deep_view(), link_encoder()));
    Json::Array(out)
}

/// Copies links.
pub fn clone_links(links: &Vec<Link>) -> (r: Vec<Link>)
    ensures
        r.deep_view() == links.deep_view(),
{
    let mut out: Vec<Link> = Vec::new();
    let mut i: usize = 0;
    while i < links.len()
        invariant
            i <= links.len(),
            out.len() == i,
            forall|k: int| 0 <= k < i ==> out@[k]@ == links@[k]@,
        decreases links.len() - i,
    {
        out.push(links[i].clone());
        i += 1;
    }
    assert(out.deep_view() =~= links.deep_view());
    out
}

/// The first link with the relation `rel`.
pub open spec fn first_with_rel(links: Seq<LinkView>, rel: Seq<char>) -> Option<LinkView>
    decreases links.len(),
{
    if links.len() == 0 {
        None
    } else {
        match first_with_rel(links.drop_last(), rel) {
            Some(l) => Some(l),
            None => if links.last().rel == rel {
                Some(links.last())
            } else {
                None
            },
        }
    }
}

/// The links whose relation is not `rel`, in order.
pub open spec fn without_rel(links: Seq<LinkView>, rel: Seq<char>) -> Seq<LinkView>
    decreases links.len(),
{
    if links.len() == 0 {
        Seq::empty()
    } else if links.last().rel == rel {
        without_rel(links.drop_last(), rel)
    } else {
        without_rel(links.drop_last(), rel).push(links.last())
    }
}

/// The links whose relation is `rel`, in order.
pub open spec fn with_rel(links: Seq<LinkView>, rel: Seq<char>) -> Seq<LinkView>
    decreases links.len(),
{
    if links.len() == 0 {
        Seq::empty()
    } else if links.last().rel == rel {
        with_rel(links.drop_last(), rel).push(links.last())
    } else {
        with_rel(links.drop_last(), rel)
    }
}

/// The links with `link` as the only one of its relation, at the end.
pub open spec fn with_link(links: Seq<LinkView>, link: LinkView) -> Seq<LinkView> {
    without_rel(links, link.rel).push(link)
}

/// A link that is found in a prefix is found there in the whole list.
pub proof fn lemma_first_with_rel_prefix(links: Seq<LinkView>, k: int, rel: Seq<char>)
    requires
        0 <= k <= links.len(),
        first_with_rel(links.take(k), rel) is Some,
    ensures
        first_with_rel(links, rel) == first_with_rel(links.take(k), rel),
    decreases links.len() - k,
{
    if k < links.len() {
        assert(links.take(k + 1).drop_last() =~= links.take(k));
        lemma_first_with_rel_prefix(links, k + 1, rel);
    } else {
        assert(links.take(k) =~= links);
    }
}

/// Where no link has the relation, none is found; where one is found, it
/// has the relation and is one of the links.
pub proof fn lemma_first_with_rel(links: Seq<LinkView>, rel: Seq<char>)
    ensures
        first_with_rel(links, rel) is None <==> forall|i: int|
            0 <= i < links.len() ==> (#[trigger] links[i]).rel != rel,
        first_with_rel(links, rel) matches Some(l) ==> l.rel == rel && links.contains(l),
    decreases links.len(),
{
    if links.len() > 0 {
        let p = links.drop_last();
        lemma_first_with_rel(p, rel);
        if first_with_rel(p, rel) is Some {
            let l = first_with_rel(p, rel)->Some_0;
            let i = choose|i: int| 0 <= i < p.len() && p[i] == l;
            assert(links[i] == l);
        } else {
            assert forall|i: int| 0 <= i < p.len() implies (#[trigger] links[i]).rel != rel by {
                assert(p[i].rel != rel);
            }
            if links.last().rel == rel {
                assert(links[links.len() - 1] == links.last());
            }
        }
    }
}

/// What is left without a relation holds no link of it, only links that
/// were there, and every link of another relation that was there.
pub proof fn lemma_without_rel(links: Seq<LinkView>, rel: Seq<char>)
    ensures
        forall|i: int|
            0 <= i < without_rel(links, rel).len() ==> (#[trigger] without_rel(links, rel)[i]).rel
                != rel && links.contains(without_rel(links, rel)[i]),
        forall|i: int|
            0 <= i < links.len() && (#[trigger] links[i]).rel != rel ==> without_rel(
                links,
                rel,
            ).contains(links[i]),
        links_valid(links) ==> links_valid(without_rel(links, rel)),
        without_rel(links, rel).len() <= links.len(),
    decreases links.len(),
{
    if links.len() > 0 {
        let p = links.drop_last();
        let w = without_rel(p, rel);
        let r = without_rel(links, rel);
        lemma_without_rel(p, rel);
        assert forall|i: int| 0 <= i < r.len() implies (#[trigger] r[i]).rel != rel
            && links.contains(r[i]) by {
            if i < w.len() {
                assert(w[i] == r[i]);
                assert(p.contains(w[i]));
                let k = choose|k: int| 0 <= k < p.len() && p[k] == w[i];
                assert(links[k] == r[i]);
            } else {
                assert(links[links.len() - 1] == r[i]);
            }
        }
        assert forall|i: int| 0 <= i < links.len() && (#[trigger] links[i]).rel != rel implies r.contains(
            links[i],
        ) by {
            if i < p.len() {
                assert(p[i] == links[i]);
                assert(w.contains(p[i]));
                let k = choose|k: int| 0 <= k < w.len() && w[k] == p[i];
                assert(r[k] == links[i]);
            } else {
                assert(r[r.len() - 1] == links[i]);
            }
        }
        if links_valid(links) {
            assert forall|i: int| 0 <= i < p.len() implies (#[trigger] p[i]).is_valid() by {
                assert(links[i].is_valid());
            }
            assert forall|i: int| 0 <= i < r.len() implies (#[trigger] r[i]).is_valid() by {
                if i < w.len() {
                    assert(w[i].is_valid());
                } else {
                    assert(links[links.len() - 1].is_valid());
                }
            }
        }
    }
}

/// Once a link is set, it is the one link of its relation.
pub proof fn lemma_with_link(links: Seq<LinkView>, link: LinkView)
    ensures
        first_with_rel(with_link(links, link), link.rel) == Some(link),
        forall|i: int|
            0 <= i < with_link(links, link).len() - 1 ==> (#[trigger] with_link(links, link)[i]).rel
                != link.rel,
        links_valid(links) && link.is_valid() ==> links_valid(with_link(links, link)),
{
    let w = without_rel(links, link.rel);
    let r = with_link(links, link);
    lemma_without_rel(links, link.rel);
    lemma_first_with_rel(w, link.rel);
    assert(r.drop_last() =~= w);
    assert forall|i: int| 0 <= i < r.len() - 1 implies (#[trigger] r[i]).rel != link.rel by {
        assert(w[i] == r[i]);
    }
    if links_valid(links) && link.is_valid() {
        assert forall|i: int| 0 <= i < r.len() implies (#[trigger] r[i]).is_valid() by {
            if i < w.len() {
                assert(w[i].is_valid());
            }
        }
    }
}

/// Finds the first link with the relation `rel`.
pub fn find_link<'a>(links: &'a Vec<Link>, rel: &str) -> (r: Option<&'a Link>)
    ensures
        match r {
            Some(l) => first_with_rel(links.deep_view(), rel@) == Some(l@),
            None => first_with_rel(links.deep_view(), rel@) is None,
        },
{
    let wanted = rel.to_owned();
    let ghost ls = links.deep_view();
    let mut i: usize = 0;
    assert(ls.take(0) =~= Seq::empty());
    while i < links.len()
        invariant
            i <= links.len(),
            wanted@ == rel@,
            ls == links.deep_view(),
            first_with_rel(ls.take(i as int), rel@) is None,
        decreases links.len() - i,
    {
        proof {
            assert(ls.take(i + 1).drop_last() =~= ls.take(i as int));
        }
        if links[i].rel == wanted {
            proof {
                lemma_first_with_rel_prefix(ls, i + 1, rel@);
            }
            return Some(&links[i]);
        }
        i += 1;
    }
    proof {
        assert(ls.take(i as int) =~= ls);
    }
    None
}

/// Finds every link with the relation `rel`, in order.
pub fn links_of<'a>(links: &'a Vec<Link>, rel: &str) -> (r: Vec<&'a Link>)
    ensures
        r.deep_view() == with_rel(links.deep_view(), rel@),
{
    let wanted = rel.to_owned();
    let ghost ls = links.deep_view();
    let mut out: Vec<&Link> = Vec::new();
    let mut i: usize = 0;
    assert(ls.take(0) =~= Seq::empty());
    assert(out.deep_view() =~= Seq::empty());
    while i < links.len()
        invariant
            i <= links.len(),
            wanted@ == rel@,
            ls == links.deep_view(),
            out.deep_view() == with_rel(ls.take(i as int), rel@),
        decreases links.len() - i,
    {
        proof {
            assert(ls.take(i + 1).drop_last() =~= ls.take(i as int));
        }
        if links[i].rel == wanted {
            let ghost before = out.deep_view();
            out.push(&links[i]);
            assert(out.deep_view() =~= before.push(ls[i as int]));
        }
        i += 1;
    }
    proof {
        assert(ls.take(i as int) =~= ls);
    }
    out
}

/// Removes every link with the relation `rel`.
pub fn remove_links(links: &mut Vec<Link>, rel: &str)
    ensures
        final(links).deep_view() == without_rel(old(links).deep_view(), rel@),
        links_valid(old(links).deep_view()) ==> links_valid(final(links).deep_view()),
{
    proof {
        lemma_without_rel(old(links).deep_view(), rel@);
    }
    let wanted = rel.to_owned();
    let ghost ls = links.deep_view();
    let mut out: Vec<Link> = Vec::new();
    let mut i: usize = 0;
    assert(ls.take(0) =~= Seq::empty());
    assert(out.deep_view() =~= Seq::empty());
    while i < links.len()
        invariant
            i <= links.len(),
            wanted@ == rel@,
            ls == links.deep_view(),
            out.deep_view() == without_rel(ls.take(i as int), rel@),
        decreases links.len() - i,
    {
        proof {
            assert(ls.take(i + 1).drop_last() =~= ls.take(i as int));
        }
        if links[i].rel != wanted {
            let ghost before = out.deep_view();
            out.push(links[i].clone());
            assert(out.deep_view() =~= before.push(ls[i as int]));
        }
        i += 1;
    }
    proof {
        assert(ls.take(i as int) =~= ls);
    }
    *links = out;
}

/// Sets a link: every link of its relation gives way to it.
pub fn set_link(links: &mut Vec<Link>, link: Link)
    ensures
        final(links).deep_view() == with_link(old(links).deep_view(), link@),
        links_valid(old(links).deep_view()) && link@.is_valid() ==> links_valid(
            final(links).deep_view(),
        ),
{
    proof {
        lemma_with_link(old(links).deep_view(), link@);
    }
    remove_links(links, link.rel.as_str());
    let ghost before = links.deep_view();
    let ghost lv = link@;
    links.push(link);
    assert(links.deep_view() =~= before.push(lv));
}

impl Link {
    /// A link to the root of a catalog tree.
    pub fn root(href: &str) -> (l: Link)
        ensures
            l@ == (LinkView {
                href: href@,
                rel: "root"@,
                media_type: None,
                title: None,
                additional_fields: Seq::empty(),
            }),
            l@.is_valid(),
    {
        Link::new(href, "root")
    }

    /// A link to the document itself.
    pub fn self_(href: &str) -> (l: Link)
        ensures
            l@ == (LinkView {
                href: href@,
                rel: "self"@,
                media_type: None,
                title: None,
                additional_fields: Seq::empty(),
            }),
            l@.is_valid(),
    {
        Link::new(href, "self")
    }

    /// A link to the document above.
    pub fn parent(href: &str) -> (l: Link)
        ensures
            l@ == (LinkView {
                href: href@,
                rel: "parent"@,
                media_type: None,
                title: None,
                additional_fields: Seq::empty(),
            }),
            l@.is_valid(),
    {
        Link::new(href, "parent")
    }

    /// A link to a catalog or collection below.
    pub fn child(href: &str) -> (l: Link)
        ensures
            l@ == (LinkView {
                href: href@,
                rel: "child"@,
                media_type: None,
                title: None,
                additional_fields: Seq::empty(),
            }),
            l@.is_valid(),
    {
        Link::new(href, "child")
    }

    /// A link to an item.
    pub fn item(href: &str) -> (l: Link)
        ensures
            l@ == (LinkView {
                href: href@,
                rel: "item"@,
                media_type: None,
                title: None,
                additional_fields: Seq::empty(),
            }),
            l@.is_valid(),
    {
        Link::new(href, "item")
    }

    /// A link to the collection that an item belongs to.
    pub fn collection(href: &str) -> (l: Link)
        ensures
            l@ == (LinkView {
                href: href@,
                rel: "collection"@,
                media_type: None,
                title: None,
                additional_fields: Seq::empty(),
            }),
            l@.is_valid(),
    {
        Link::new(href, "collection")
    }
}

impl Link {
    /// Tells whether the link is valid: whether it can be written and read
    /// back as it is.
    pub fn is_valid(&self) -> (r: bool)
        ensures
            r == self@.is_valid(),
    {
        can_stand_beside(&self.additional_fields, &link_field_names())
    }
}

/// Tells whether every link is valid.
pub fn links_are_valid(items: &Vec<Link>) -> (r: bool)
    ensures
        r == links_valid(items.deep_view()),
{
    let ghost xs = items.deep_view();
    let mut i: usize = 0;
    while i < items.len()
        invariant
            i <= items.len(),
            xs == items.deep_view(),
            forall|k: int| 0 <= k < i ==> (#[trigger] xs[k]).is_valid(),
        decreases items.len() - i,
    {
        if !items[i].is_valid() {
            assert(!xs[i as int].is_valid());
            return false;
        }
        i += 1;
    }
    true
}

} // verus!
