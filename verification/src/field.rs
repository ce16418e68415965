//! Reading typed values out of the members of a JSON object, and writing
//! them back.

use crate::error::{Error, ErrorView};
use crate::json::{get, member, put, Json, JsonView, Members, Number};
use vstd::prelude::*;

verus! {

broadcast use crate::json::group_json_view;

/// The length and the first letter of every member name that the documents
/// use: enough to tell any two of them apart.
pub proof fn lemma_names()
    ensures
        "href"@.len() == 4 && "href"@[0] == 'h',
        "rel"@.len() == 3 && "rel"@[0] == 'r',
        "type"@.len() == 4 && "type"@[0] == 't',
        "title"@.len() == 5 && "title"@[0] == 't',
        "description"@.len() == 11 && "description"@[0] == 'd',
        "roles"@.len() == 5 && "roles"@[0] == 'r',
        "id"@.len() == 2 && "id"@[0] == 'i',
        "stac_version"@.len() == 12 && "stac_version"@[0] == 's',
        "stac_extensions"@.len() == 15 && "stac_extensions"@[0] == 's',
        "geometry"@.len() == 8 && "geometry"@[0] == 'g',
        "bbox"@.len() == 4 && "bbox"@[0] == 'b',
        "properties"@.len() == 10 && "properties"@[0] == 'p',
        "links"@.len() == 5 && "links"@[0] == 'l',
        "assets"@.len() == 6 && "assets"@[0] == 'a',
        "collection"@.len() == 10 && "collection"@[0] == 'c',
        "extent"@.len() == 6 && "extent"@[0] == 'e',
        "providers"@.len() == 9 && "providers"@[0] == 'p',
        "summaries"@.len() == 9 && "summaries"@[0] == 's',
        "spatial"@.len() == 7 && "spatial"@[0] == 's',
        "temporal"@.len() == 8 && "temporal"@[0] == 't',
        "interval"@.len() == 8 && "interval"@[0] == 'i',
        "name"@.len() == 4 && "name"@[0] == 'n',
        "url"@.len() == 3 && "url"@[0] == 'u',
        "datetime"@.len() == 8 && "datetime"@[0] == 'd',
{
    reveal_strlit("href");
    reveal_strlit("rel");
    reveal_strlit("type");
    reveal_strlit("title");
    reveal_strlit("description");
    reveal_strlit("roles");
    reveal_strlit("id");
    reveal_strlit("stac_version");
    reveal_strlit("stac_extensions");
    reveal_strlit("geometry");
    reveal_strlit("bbox");
    reveal_strlit("properties");
    reveal_strlit("links");
    reveal_strlit("assets");
    reveal_strlit("collection");
    reveal_strlit("extent");
    reveal_strlit("providers");
    reveal_strlit("summaries");
    reveal_strlit("spatial");
    reveal_strlit("temporal");
    reveal_strlit("interval");
    reveal_strlit("name");
    reveal_strlit("url");
    reveal_strlit("datetime");
}

/// The member `key`, which has to be there and has to be a string.
pub open spec fn required_string(ms: Members, key: Seq<char>) -> Result<Seq<char>, ErrorView> {
    match member(ms, key) {
        None => Err(ErrorView::MissingField(key)),
        Some(JsonView::String(s)) => Ok(s),
        Some(_) => Err(ErrorView::InvalidField(key)),
    }
}

/// The member `key`, which is a string where it is there and not null.
pub open spec fn optional_string(ms: Members, key: Seq<char>) -> Result<
    Option<Seq<char>>,
    ErrorView,
> {
    match member(ms, key) {
        None => Ok(None),
        Some(JsonView::Null) => Ok(None),
        Some(JsonView::String(s)) => Ok(Some(s)),
        Some(_) => Err(ErrorView::InvalidField(key)),
    }
}

/// The JSON of a string that may be absent.
pub open spec fn optional_string_json(value: Option<Seq<char>>) -> Option<JsonView> {
    match value {
        Some(s) => Some(JsonView::String(s)),
        None => None,
    }
}

/// Reads a required string member.
pub fn read_string(members: &Vec<(String, Json)>, key: &str) -> (r: Result<String, Error>)
    ensures
        match r {
            Ok(s) => required_string(members.deep_view(), key@) == Ok::<Seq<char>, ErrorView>(s@),
            Err(e) => required_string(members.deep_view(), key@) == Err::<Seq<char>, ErrorView>(
                e@,
            ),
        },
{
    match get(members, key) {
        None => Err(Error::MissingField(key.to_owned())),
        Some(Json::String(s)) => Ok(s.clone()),
        Some(_) => Err(Error::InvalidField(key.to_owned())),
    }
}

/// Reads a string member that may be absent or null.
pub fn read_optional_string(members: &Vec<(String, Json)>, key: &str) -> (r: Result<
    Option<String>,
    Error,
>)
    ensures
        match r {
            Ok(s) => optional_string(members.deep_view(), key@) == Ok::<
                Option<Seq<char>>,
                ErrorView,
            >(s.deep_view()),
            Err(e) => optional_string(members.deep_view(), key@) == Err::<
                Option<Seq<char>>,
                ErrorView,
            >(e@),
        },
{
    match get(members, key) {
        None => Ok(None),
        Some(Json::Null) => Ok(None),
        Some(Json::String(s)) => Ok(Some(s.clone())),
        Some(_) => Err(Error::InvalidField(key.to_owned())),
    }
}

/// Appends the member `(key, value)`.
pub fn push_member(members: &mut Vec<(String, Json)>, key: &str, value: Json)
    ensures
        final(members).deep_view() == old(members).deep_view().push((key@, value@)),
{
    members.push((key.to_owned(), value));
    assert(members.deep_view() =~= old(members).deep_view().push((key@, value@)));
}

/// Appends a string member.
pub fn push_string(members: &mut Vec<(String, Json)>, key: &str, value: &String)
    ensures
        final(members).deep_view() == old(members).deep_view().push(
            (key@, JsonView::String(value@)),
        ),
{
    push_member(members, key, Json::String(value.clone()));
}

/// Appends a string member where there is a string.
pub fn push_optional_string(members: &mut Vec<(String, Json)>, key: &str, value: &Option<String>)
    ensures
        final(members).deep_view() == put(
            old(members).deep_view(),
            key@,
            optional_string_json(value.deep_view()),
        ),
{
    match value {
        Some(s) => {
            push_string(members, key, s);
        },
        None => {},
    }
}

/// Appends copies of the members of `extra`.
pub fn push_members(members: &mut Vec<(String, Json)>, extra: &Vec<(String, Json)>)
    ensures
        final(members).deep_view() == old(members).deep_view() + extra.deep_view(),
{
    let mut i: usize = 0;
    assert(members.deep_view() =~= old(members).deep_view() + extra.deep_view().take(0));
    while i < extra.len()
        invariant
            i <= extra.len(),
            members.deep_view() == old(members).deep_view() + extra.deep_view().take(i as int),
        decreases extra.len() - i,
    {
        let ghost before = members.deep_view();
        members.push((extra[i].0.clone(), extra[i].1.clone()));
        assert(members.deep_view() =~= before.push(extra.deep_view()[i as int]));
        assert(before.push(extra.deep_view()[i as int]) =~= old(members).deep_view()
            + extra.deep_view().take(i + 1));
        i += 1;
    }
    assert(extra.deep_view().take(i as int) =~= extra.deep_view());
}

/// Every item is a string.
pub open spec fn all_strings(items: Seq<JsonView>) -> bool {
    forall|i: int| 0 <= i < items.len() ==> (#[trigger] items[i]) is String
}

/// The strings that the items are.
pub open spec fn strings_of(items: Seq<JsonView>) -> Seq<Seq<char>> {
    Seq::new(items.len(), |i: int| items[i]->String_0)
}

/// The JSON array of the strings `texts`.
pub open spec fn strings_json(texts: Seq<Seq<char>>) -> JsonView {
    JsonView::Array(Seq::new(texts.len(), |i: int| JsonView::String(texts[i])))
}

/// The member `key`, which is an array of strings where it is there.
pub open spec fn string_list(ms: Members, key: Seq<char>) -> Result<Seq<Seq<char>>, ErrorView> {
    match member(ms, key) {
        None => Ok(Seq::empty()),
        Some(JsonView::Array(items)) => if all_strings(items) {
            Ok(strings_of(items))
        } else {
            Err(ErrorView::InvalidField(key))
        },
        Some(_) => Err(ErrorView::InvalidField(key)),
    }
}

/// An array of strings reads back as those strings.
pub proof fn lemma_strings_round_trip(texts: Seq<Seq<char>>)
    ensures
        strings_json(texts) matches JsonView::Array(items) && all_strings(items) && strings_of(
            items,
        ) == texts,
{
    let items = strings_json(texts)->Array_0;
    assert(strings_of(items) =~= texts);
}

/// Every item is a number.
pub open spec fn all_numbers(items: Seq<JsonView>) -> bool {
    forall|i: int| 0 <= i < items.len() ==> (#[trigger] items[i]) is Number
}

/// The numbers that the items are.
pub open spec fn numbers_of(items: Seq<JsonView>) -> Seq<Seq<char>> {
    Seq::new(items.len(), |i: int| items[i]->Number_0)
}

/// The JSON array of the numbers `numbers`.
pub open spec fn numbers_json(numbers: Seq<Seq<char>>) -> JsonView {
    JsonView::Array(Seq::new(numbers.len(), |i: int| JsonView::Number(numbers[i])))
}

/// An array of numbers reads back as those numbers.
pub proof fn lemma_numbers_round_trip(numbers: Seq<Seq<char>>)
    ensures
        numbers_json(numbers) matches JsonView::Array(items) && all_numbers(items) && numbers_of(
            items,
        ) == numbers,
{
    let items = numbers_json(numbers)->Array_0;
    assert(numbers_of(items) =~= numbers);
}

/// The member `key`, which has to be there and has to be an array.
pub open spec fn required_array(ms: Members, key: Seq<char>) -> Result<Seq<JsonView>, ErrorView> {
    match member(ms, key) {
        None => Err(ErrorView::MissingField(key)),
        Some(JsonView::Array(items)) => Ok(items),
        Some(_) => Err(ErrorView::InvalidField(key)),
    }
}

/// The member `key`, which is an array where it is there; none stands for
/// an empty one.
pub open spec fn optional_array(ms: Members, key: Seq<char>) -> Result<Seq<JsonView>, ErrorView> {
    match member(ms, key) {
        None => Ok(Seq::empty()),
        Some(JsonView::Array(items)) => Ok(items),
        Some(_) => Err(ErrorView::InvalidField(key)),
    }
}

/// The member `key`, which has to be there and has to be an object.
pub open spec fn required_object(ms: Members, key: Seq<char>) -> Result<Members, ErrorView> {
    match member(ms, key) {
        None => Err(ErrorView::MissingField(key)),
        Some(JsonView::Object(inner)) => Ok(inner),
        Some(_) => Err(ErrorView::InvalidField(key)),
    }
}

/// The member `key`, which is an object where it is there; none stands for
/// an empty one.
pub open spec fn optional_object(ms: Members, key: Seq<char>) -> Result<Members, ErrorView> {
    match member(ms, key) {
        None => Ok(Seq::empty()),
        Some(JsonView::Object(inner)) => Ok(inner),
        Some(_) => Err(ErrorView::InvalidField(key)),
    }
}

/// `j` unless `s` is empty.
pub open spec fn unless_empty<T>(s: Seq<T>, j: JsonView) -> Option<JsonView> {
    if s.len() == 0 {
        None
    } else {
        Some(j)
    }
}

/// Reads every item with `dec`; the first item that fails decides.
pub open spec fn decode_all<T>(
    items: Seq<JsonView>,
    dec: spec_fn(JsonView) -> Result<T, ErrorView>,
) -> Result<Seq<T>, ErrorView>
    decreases items.len(),
{
    if items.len() == 0 {
        Ok(Seq::empty())
    } else {
        match decode_all(items.drop_last(), dec) {
            Err(e) => Err(e),
            Ok(xs) => match dec(items.last()) {
                Err(e) => Err(e),
                Ok(x) => Ok(xs.push(x)),
            },
        }
    }
}

/// Writes every item with `enc`.
pub open spec fn encode_all<T>(xs: Seq<T>, enc: spec_fn(T) -> JsonView) -> Seq<JsonView> {
    Seq::new(xs.len(), |i: int| enc(xs[i]))
}

pub proof fn lemma_decode_all_push<T>(
    items: Seq<JsonView>,
    item: JsonView,
    dec: spec_fn(JsonView) -> Result<T, ErrorView>,
)
    ensures
        decode_all(items.push(item), dec) == (match decode_all(items, dec) {
            Err(e) => Err(e),
            Ok(xs) => match dec(item) {
                Err(e) => Err(e),
                Ok(x) => Ok(xs.push(x)),
            },
        }),
{
    assert(items.push(item).drop_last() =~= items);
}

/// A failure in a prefix is the failure of the whole list.
pub proof fn lemma_decode_all_prefix<T>(
    items: Seq<JsonView>,
    k: int,
    dec: spec_fn(JsonView) -> Result<T, ErrorView>,
)
    requires
        0 <= k <= items.len(),
        decode_all(items.take(k), dec) is Err,
    ensures
        decode_all(items, dec) == decode_all(items.take(k), dec),
    decreases items.len() - k,
{
    if k < items.len() {
        assert(items.take(k + 1).drop_last() =~= items.take(k));
        lemma_decode_all_prefix(items, k + 1, dec);
    } else {
        assert(items.take(k) =~= items);
    }
}

/// Items that each read back as what they were written from read back
/// together.
pub proof fn lemma_decode_all_round_trip<T>(
    xs: Seq<T>,
    enc: spec_fn(T) -> JsonView,
    dec: spec_fn(JsonView) -> Result<T, ErrorView>,
)
    requires
        forall|i: int| 0 <= i < xs.len() ==> dec(enc(#[trigger] xs[i])) == Ok::<T, ErrorView>(xs[i]),
    ensures
        decode_all(encode_all(xs, enc), dec) == Ok::<Seq<T>, ErrorView>(xs),
    decreases xs.len(),
{
    if xs.len() == 0 {
        assert(xs =~= Seq::empty());
    } else {
        let p = xs.drop_last();
        assert forall|i: int| 0 <= i < p.len() implies dec(enc(#[trigger] p[i])) == Ok::<
            T,
            ErrorView,
        >(p[i]) by {
            assert(p[i] == xs[i]);
        }
        lemma_decode_all_round_trip(p, enc, dec);
        assert(encode_all(xs, enc).drop_last() =~= encode_all(p, enc));
        assert(encode_all(xs, enc).last() == enc(xs[xs.len() - 1]));
        assert(p.push(xs.last()) =~= xs);
    }
}

/// What is read holds of every item what `dec` promises of one.
pub proof fn lemma_decode_all_each<T>(
    items: Seq<JsonView>,
    dec: spec_fn(JsonView) -> Result<T, ErrorView>,
    good: spec_fn(T) -> bool,
)
    requires
        forall|j: JsonView| (#[trigger] dec(j)) matches Ok(x) ==> good(x),
    ensures
        decode_all(items, dec) matches Ok(xs) ==> xs.len() == items.len() && forall|i: int|
            0 <= i < xs.len() ==> good(#[trigger] xs[i]),
    decreases items.len(),
{
    if items.len() > 0 {
        lemma_decode_all_each(items.drop_last(), dec, good);
    }
}

/// Reads the value of every member with `dec`, keeping the keys; the first
/// member that fails decides.
pub open spec fn decode_values<T>(
    ms: Members,
    dec: spec_fn(JsonView) -> Result<T, ErrorView>,
) -> Result<Seq<(Seq<char>, T)>, ErrorView>
    decreases ms.len(),
{
    if ms.len() == 0 {
        Ok(Seq::empty())
    } else {
        match decode_values(ms.drop_last(), dec) {
            Err(e) => Err(e),
            Ok(xs) => match dec(ms.last().1) {
                Err(e) => Err(e),
                Ok(x) => Ok(xs.push((ms.last().0, x))),
            },
        }
    }
}

/// Writes the value of every entry with `enc`, keeping the keys.
pub open spec fn encode_values<T>(xs: Seq<(Seq<char>, T)>, enc: spec_fn(T) -> JsonView) -> Members {
    Seq::new(xs.len(), |i: int| (xs[i].0, enc(xs[i].1)))
}

/// No key occurs twice in `xs`.
pub open spec fn distinct_names<T>(xs: Seq<(Seq<char>, T)>) -> bool {
    forall|i: int, j: int| 0 <= i < j < xs.len() ==> (#[trigger] xs[i]).0 != (#[trigger] xs[j]).0
}

pub proof fn lemma_decode_values_push<T>(
    ms: Members,
    m: (Seq<char>, JsonView),
    dec: spec_fn(JsonView) -> Result<T, ErrorView>,
)
    ensures
        decode_values(ms.push(m), dec) == (match decode_values(ms, dec) {
            Err(e) => Err(e),
            Ok(xs) => match dec(m.1) {
                Err(e) => Err(e),
                Ok(x) => Ok(xs.push((m.0, x))),
            },
        }),
{
    assert(ms.push(m).drop_last() =~= ms);
}

/// A failure in a prefix is the failure of the whole list.
pub proof fn lemma_decode_values_prefix<T>(
    ms: Members,
    k: int,
    dec: spec_fn(JsonView) -> Result<T, ErrorView>,
)
    requires
        0 <= k <= ms.len(),
        decode_values(ms.take(k), dec) is Err,
    ensures
        decode_values(ms, dec) == decode_values(ms.take(k), dec),
    decreases ms.len() - k,
{
    if k < ms.len() {
        assert(ms.take(k + 1).drop_last() =~= ms.take(k));
        lemma_decode_values_prefix(ms, k + 1, dec);
    } else {
        assert(ms.take(k) =~= ms);
    }
}

/// Entries whose values each read back as what they were written from read
/// back together, under their keys.
pub proof fn lemma_decode_values_round_trip<T>(
    xs: Seq<(Seq<char>, T)>,
    enc: spec_fn(T) -> JsonView,
    dec: spec_fn(JsonView) -> Result<T, ErrorView>,
)
    requires
        forall|i: int|
            0 <= i < xs.len() ==> dec(enc((#[trigger] xs[i]).1)) == Ok::<T, ErrorView>(xs[i].1),
    ensures
        decode_values(encode_values(xs, enc), dec) == Ok::<Seq<(Seq<char>, T)>, ErrorView>(xs),
    decreases xs.len(),
{
    if xs.len() == 0 {
        assert(xs =~= Seq::empty());
    } else {
        let p = xs.drop_last();
        assert forall|i: int| 0 <= i < p.len() implies dec(enc((#[trigger] p[i]).1)) == Ok::<
            T,
            ErrorView,
        >(p[i].1) by {
            assert(p[i] == xs[i]);
        }
        lemma_decode_values_round_trip(p, enc, dec);
        assert(encode_values(xs, enc).drop_last() =~= encode_values(p, enc));
        assert(encode_values(xs, enc).last() == (xs[xs.len() - 1].0, enc(xs[xs.len() - 1].1)));
        assert(p.push(xs.last()) =~= xs);
    }
}

/// What is read has the keys of what it was read from, and holds of every
/// value what `dec` promises of one.
pub proof fn lemma_decode_values_each<T>(
    ms: Members,
    dec: spec_fn(JsonView) -> Result<T, ErrorView>,
    good: spec_fn(T) -> bool,
)
    requires
        forall|j: JsonView| (#[trigger] dec(j)) matches Ok(x) ==> good(x),
    ensures
        decode_values(ms, dec) matches Ok(xs) ==> xs.len() == ms.len() && forall|i: int|
            0 <= i < xs.len() ==> (#[trigger] xs[i]).0 == ms[i].0 && good(xs[i].1),
    decreases ms.len(),
{
    if ms.len() > 0 {
        lemma_decode_values_each(ms.drop_last(), dec, good);
    }
}

/// Reads a required array member.
pub fn read_array<'a>(members: &'a Vec<(String, Json)>, key: &str) -> (r: Result<
    &'a Vec<Json>,
    Error,
>)
    ensures
        match r {
            Ok(items) => required_array(members.deep_view(), key@) == Ok::<
                Seq<JsonView>,
                ErrorView,
            >(items.deep_view()),
            Err(e) => required_array(members.deep_view(), key@) == Err::<
                Seq<JsonView>,
                ErrorView,
            >(e@),
        },
{
    match get(members, key) {
        None => Err(Error::MissingField(key.to_owned())),
        Some(Json::Array(items)) => Ok(items),
        Some(_) => Err(Error::InvalidField(key.to_owned())),
    }
}

/// Reads an array member that may be absent.
pub fn read_optional_array<'a>(members: &'a Vec<(String, Json)>, key: &str) -> (r: Result<
    Option<&'a Vec<Json>>,
    Error,
>)
    ensures
        match r {
            Ok(Some(items)) => optional_array(members.deep_view(), key@) == Ok::<
                Seq<JsonView>,
                ErrorView,
            >(items.deep_view()),
            Ok(None) => optional_array(members.deep_view(), key@) == Ok::<
                Seq<JsonView>,
                ErrorView,
            >(Seq::empty()),
            Err(e) => optional_array(members.deep_view(), key@) == Err::<
                Seq<JsonView>,
                ErrorView,
            >(e@),
        },
{
    match get(members, key) {
        None => Ok(None),
        Some(Json::Array(items)) => Ok(Some(items)),
        Some(_) => Err(Error::InvalidField(key.to_owned())),
    }
}

/// Reads a required object member.
pub fn read_object<'a>(members: &'a Vec<(String, Json)>, key: &str) -> (r: Result<
    &'a Vec<(String, Json)>,
    Error,
>)
    ensures
        match r {
            Ok(inner) => required_object(members.deep_view(), key@) == Ok::<Members, ErrorView>(
                inner.deep_view(),
            ),
            Err(e) => required_object(members.deep_view(), key@) == Err::<Members, ErrorView>(e@),
        },
{
    match get(members, key) {
        None => Err(Error::MissingField(key.to_owned())),
        Some(Json::Object(inner)) => Ok(inner),
        Some(_) => Err(Error::InvalidField(key.to_owned())),
    }
}

/// Reads an object member that may be absent.
pub fn read_optional_object<'a>(members: &'a Vec<(String, Json)>, key: &str) -> (r: Result<
    Option<&'a Vec<(String, Json)>>,
    Error,
>)
    ensures
        match r {
            Ok(Some(inner)) => optional_object(members.deep_view(), key@) == Ok::<
                Members,
                ErrorView,
            >(inner.deep_view()),
            Ok(None) => optional_object(members.deep_view(), key@) == Ok::<Members, ErrorView>(
                Seq::empty(),
            ),
            Err(e) => optional_object(members.deep_view(), key@) == Err::<Members, ErrorView>(e@),
        },
{
    match get(members, key) {
        None => Ok(None),
        Some(Json::Object(inner)) => Ok(Some(inner)),
        Some(_) => Err(Error::InvalidField(key.to_owned())),
    }
}

/// The strings that the items are, if each of them is one.
pub fn strings_from_items(items: &Vec<Json>) -> (r: Option<Vec<String>>)
    ensures
        match r {
            Some(texts) => all_strings(items.deep_view()) && texts.deep_view() == strings_of(
                items.deep_view(),
            ),
            None => !all_strings(items.deep_view()),
        },
{
    let ghost js = items.deep_view();
    let mut out: Vec<String> = Vec::new();
    let mut i: usize = 0;
    while i < items.len()
        invariant
            i <= items.len(),
            js == items.deep_view(),
            out.len() == i,
            forall|k: int| 0 <= k < i ==> (#[trigger] js[k]) is String && out@[k]@ == js[k]->String_0,
        decreases items.len() - i,
    {
        match &items[i] {
            Json::String(s) => {
                out.push(s.clone());
            },
            _ => {
                assert(!(js[i as int] is String));
                return None;
            },
        }
        i += 1;
    }
    assert(out.deep_view() =~= strings_of(js));
    Some(out)
}

/// The numbers that the items are, if each of them is one.
pub fn numbers_from_items(items: &Vec<Json>) -> (r: Option<Vec<Number>>)
    ensures
        match r {
            Some(numbers) => all_numbers(items.deep_view()) && numbers.deep_view() == numbers_of(
                items.deep_view(),
            ),
            None => !all_numbers(items.deep_view()),
        },
{
    let ghost js = items.deep_view();
    let mut out: Vec<Number> = Vec::new();
    let mut i: usize = 0;
    while i < items.len()
        invariant
            i <= items.len(),
            js == items.deep_view(),
            out.len() == i,
            forall|k: int| 0 <= k < i ==> (#[trigger] js[k]) is Number && out@[k]@ == js[k]->Number_0,
        decreases items.len() - i,
    {
        match &items[i] {
            Json::Number(n) => {
                out.push(n.clone());
            },
            _ => {
                assert(!(js[i as int] is Number));
                return None;
            },
        }
        i += 1;
    }
    assert(out.deep_view() =~= numbers_of(js));
    Some(out)
}

/// Reads a member that is an array of strings where it is there.
pub fn read_string_list(members: &Vec<(String, Json)>, key: &str) -> (r: Result<
    Vec<String>,
    Error,
>)
    ensures
        match r {
            Ok(texts) => string_list(members.deep_view(), key@) == Ok::<
                Seq<Seq<char>>,
                ErrorView,
            >(texts.deep_view()),
            Err(e) => string_list(members.deep_view(), key@) == Err::<Seq<Seq<char>>, ErrorView>(
                e@,
            ),
        },
{
    match get(members, key) {
        None => {
            let out: Vec<String> = Vec::new();
            assert(out.deep_view() =~= Seq::empty());
            Ok(out)
        },
        Some(Json::Array(items)) => match strings_from_items(items) {
            Some(texts) => Ok(texts),
            None => Err(Error::InvalidField(key.to_owned())),
        },
        Some(_) => Err(Error::InvalidField(key.to_owned())),
    }
}

/// Writes strings as a JSON array.
pub fn strings_to_json(texts: &Vec<String>) -> (j: Json)
    ensures
        j@ == strings_json(texts.deep_view()),
{
    let mut out: Vec<Json> = Vec::new();
    let mut i: usize = 0;
    while i < texts.len()
        invariant
            i <= texts.len(),
            out.len() == i,
            forall|k: int| 0 <= k < i ==> out@[k]@ == JsonView::String(texts@[k]@),
        decreases texts.len() - i,
    {
        out.push(Json::String(texts[i].clone()));
        i += 1;
    }
    assert(out.deep_view() =~= strings_json(texts.deep_view())->Array_0);
    Json::Array(out)
}

/// Writes numbers as a JSON array.
pub fn numbers_to_json(numbers: &Vec<Number>) -> (j: Json)
    ensures
        j@ == numbers_json(numbers.deep_view()),
{
    let mut out: Vec<Json> = Vec::new();
    let mut i: usize = 0;
    while i < numbers.len()
        invariant
            i <= numbers.len(),
            out.len() == i,
            forall|k: int| 0 <= k < i ==> out@[k]@ == JsonView::Number(numbers@[k]@),
        decreases numbers.len() - i,
    {
        out.push(Json::Number(numbers[i].clone()));
        i += 1;
    }
    assert(out.deep_view() =~= numbers_json(numbers.deep_view())->Array_0);
    Json::Array(out)
}

/// Copies a list of strings.
pub fn clone_strings(texts: &Vec<String>) -> (r: Vec<String>)
    ensures
        r.deep_view() == texts.deep_view(),
{
    let mut out: Vec<String> = Vec::new();
    let mut i: usize = 0;
    while i < texts.len()
        invariant
            i <= texts.len(),
            out.len() == i,
            forall|k: int| 0 <= k < i ==> out@[k]@ == texts@[k]@,
        decreases texts.len() - i,
    {
        out.push(texts[i].clone());
        i += 1;
    }
    assert(out.deep_view() =~= texts.deep_view());
    out
}

/// Copies a string that may be absent.
pub fn clone_text(value: &Option<String>) -> (r: Option<String>)
    ensures
        r.deep_view() == value.deep_view(),
{
    match value {
        Some(s) => Some(s.clone()),
        None => None,
    }
}

/// The member `key`, which is an array of numbers where it is there and
/// not null.
pub open spec fn optional_numbers(ms: Members, key: Seq<char>) -> Result<
    Option<Seq<Seq<char>>>,
    ErrorView,
> {
    match member(ms, key) {
        None => Ok(None),
        Some(JsonView::Null) => Ok(None),
        Some(JsonView::Array(items)) => if all_numbers(items) {
            Ok(Some(numbers_of(items)))
        } else {
            Err(ErrorView::InvalidField(key))
        },
        Some(_) => Err(ErrorView::InvalidField(key)),
    }
}

/// The JSON of numbers that may be absent.
pub open spec fn optional_numbers_json(value: Option<Seq<Seq<char>>>) -> Option<JsonView> {
    match value {
        Some(numbers) => Some(numbers_json(numbers)),
        None => None,
    }
}

/// The JSON of a string that is written as null where it is absent.
pub open spec fn nullable_string_json(value: Option<Seq<char>>) -> JsonView {
    match value {
        Some(s) => JsonView::String(s),
        None => JsonView::Null,
    }
}

/// The JSON of a value that is written as null where it is absent.
pub open spec fn nullable_json(value: Option<JsonView>) -> JsonView {
    match value {
        Some(j) => j,
        None => JsonView::Null,
    }
}

/// The member `key`, which is an object where it is there and not null.
pub open spec fn optional_object_value(ms: Members, key: Seq<char>) -> Result<
    Option<JsonView>,
    ErrorView,
> {
    match member(ms, key) {
        None => Ok(None),
        Some(JsonView::Null) => Ok(None),
        Some(JsonView::Object(inner)) => Ok(Some(JsonView::Object(inner))),
        Some(_) => Err(ErrorView::InvalidField(key)),
    }
}

/// Reads a member that is an array of numbers where it is there and not
/// null.
pub fn read_optional_numbers(members: &Vec<(String, Json)>, key: &str) -> (r: Result<
    Option<Vec<Number>>,
    Error,
>)
    ensures
        match r {
            Ok(numbers) => optional_numbers(members.deep_view(), key@) == Ok::<
                Option<Seq<Seq<char>>>,
                ErrorView,
            >(numbers.deep_view()),
            Err(e) => optional_numbers(members.deep_view(), key@) == Err::<
                Option<Seq<Seq<char>>>,
                ErrorView,
            >(e@),
        },
{
    match get(members, key) {
        None => Ok(None),
        Some(Json::Null) => Ok(None),
        Some(Json::Array(items)) => match numbers_from_items(items) {
            Some(numbers) => Ok(Some(numbers)),
            None => Err(Error::InvalidField(key.to_owned())),
        },
        Some(_) => Err(Error::InvalidField(key.to_owned())),
    }
}

/// Reads a member that is an object where it is there and not null, and
/// copies it.
pub fn read_optional_object_value(members: &Vec<(String, Json)>, key: &str) -> (r: Result<
    Option<Json>,
    Error,
>)
    ensures
        match r {
            Ok(value) => optional_object_value(members.deep_view(), key@) == Ok::<
                Option<JsonView>,
                ErrorView,
            >(value.deep_view()),
            Err(e) => optional_object_value(members.deep_view(), key@) == Err::<
                Option<JsonView>,
                ErrorView,
            >(e@),
        },
{
    match get(members, key) {
        None => Ok(None),
        Some(Json::Null) => Ok(None),
        Some(Json::Object(inner)) => Ok(Some(Json::Object(crate::json::clone_members(inner)))),
        Some(_) => Err(Error::InvalidField(key.to_owned())),
    }
}

/// Copies a list of numbers.
pub fn clone_numbers(numbers: &Vec<Number>) -> (r: Vec<Number>)
    ensures
        r.deep_view() == numbers.deep_view(),
{
    let mut out: Vec<Number> = Vec::new();
    let mut i: usize = 0;
    while i < numbers.len()
        invariant
            i <= numbers.len(),
            out.len() == i,
            forall|k: int| 0 <= k < i ==> out@[k]@ == numbers@[k]@,
        decreases numbers.len() - i,
    {
        out.push(numbers[i].clone());
        i += 1;
    }
    assert(out.deep_view() =~= numbers.deep_view());
    out
}

} // verus!
