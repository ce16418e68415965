//! A JSON value model: the wire vocabulary shared by every document kind.
//!
//! An object is an ordered list of members. The typed documents read their
//! known members out of such a list and keep the rest verbatim, so most of
//! this module is about three operations on member lists: looking a key up,
//! dropping a set of names, and checking that no key occurs twice.

use vstd::prelude::*;

verus! {

broadcast use vstd::std_specs::vec::group_vec_axioms;

/// A JSON number, kept as its literal so that no precision is lost.
#[derive(Debug, PartialEq)]
pub struct Number {
    pub literal: String,
}

impl View for Number {
    type V = Seq<char>;

    open spec fn view(&self) -> Seq<char> {
        self.literal@
    }
}

impl DeepView for Number {
    type V = Seq<char>;

    open spec fn deep_view(&self) -> Seq<char> {
        self.literal@
    }
}

impl Clone for Number {
    fn clone(&self) -> (r: Self)
        ensures
            r@ == self@,
    {
        Number { literal: self.literal.clone() }
    }
}

/// A JSON value. The members of an object keep their order.
#[derive(Debug, PartialEq)]
pub enum Json {
    Null,
    Bool(bool),
    Number(Number),
    String(String),
    Array(Vec<Json>),
    Object(Vec<(String, Json)>),
}

/// The mathematical model of a [`Json`] value.
#[verifier::ext_equal]
pub enum JsonView {
    Null,
    Bool(bool),
    Number(Seq<char>),
    String(Seq<char>),
    Array(Seq<JsonView>),
    Object(Seq<(Seq<char>, JsonView)>),
}

/// The members of a JSON object, in order.
pub type Members = Seq<(Seq<char>, JsonView)>;

impl Json {
    /// The value that this JSON stands for.
    pub open spec fn model(&self) -> JsonView
        decreases self,
    {
        match self {
            Json::Null => JsonView::Null,
            Json::Bool(b) => JsonView::Bool(*b),
            Json::Number(n) => JsonView::Number(n@),
            Json::String(s) => JsonView::String(s@),
            Json::Array(items) => JsonView::Array(
                Seq::new(
                    items@.len(),
                    |i: int|
                        if 0 <= i < items@.len() {
                            items@[i].model()
                        } else {
                            arbitrary()
                        },
                ),
            ),
            Json::Object(members) => JsonView::Object(
                Seq::new(
                    members@.len(),
                    |i: int|
                        if 0 <= i < members@.len() {
                            (members@[i].0@, members@[i].1.model())
                        } else {
                            arbitrary()
                        },
                ),
            ),
        }
    }
}

impl View for Json {
    type V = JsonView;

    open spec fn view(&self) -> JsonView {
        self.model()
    }
}

impl DeepView for Json {
    type V = JsonView;

    open spec fn deep_view(&self) -> JsonView {
        self.view()
    }
}

/// The view of an array is the array of its items' views.
pub broadcast proof fn lemma_array_view(items: Vec<Json>)
    ensures
        #[trigger] Json::Array(items).view() == JsonView::Array(items.deep_view()),
{
    let a = Json::Array(items)@->Array_0;
    let b = items.deep_view();
    assert(a.len() == b.len());
    assert forall|k: int| 0 <= k < a.len() implies a[k] == b[k] by {
        assert(a[k] == items@[k]@);
    }
    assert(a =~= b);
}

/// The view of an object is the list of its members' views.
pub broadcast proof fn lemma_object_view(members: Vec<(String, Json)>)
    ensures
        #[trigger] Json::Object(members).view() == JsonView::Object(members.deep_view()),
{
    let j = Json::Object(members);
    assert(j@ is Object);
    let a = j@->Object_0;
    let b = members.deep_view();
    assert(a.len() == members@.len());
    assert(b.len() == members@.len());
    assert forall|k: int| 0 <= k < a.len() implies a[k] == b[k] by {
        assert(a[k] == (members@[k].0@, members@[k].1@));
        assert(b[k] == members@[k].deep_view());
    }
    assert(a =~= b);
}

pub broadcast group group_json_view {
    lemma_array_view,
    lemma_object_view,
}

/// Some member of `ms` has the key `key`.
pub open spec fn has_key(ms: Members, key: Seq<char>) -> bool {
    exists|i: int| 0 <= i < ms.len() && (#[trigger] ms[i]).0 == key
}

/// No key occurs twice in `ms`.
pub open spec fn distinct_keys(ms: Members) -> bool {
    forall|i: int, j: int| 0 <= i < j < ms.len() ==> (#[trigger] ms[i]).0 != (#[trigger] ms[j]).0
}

/// Every key of `ms` is one of `names`.
pub open spec fn keys_within(ms: Members, names: Seq<Seq<char>>) -> bool {
    forall|i: int| 0 <= i < ms.len() ==> names.contains((#[trigger] ms[i]).0)
}

/// No key of `ms` is one of `names`.
pub open spec fn keys_outside(ms: Members, names: Seq<Seq<char>>) -> bool {
    forall|i: int| 0 <= i < ms.len() ==> !names.contains((#[trigger] ms[i]).0)
}

/// The value of the first member of `ms` whose key is `key`.
pub open spec fn member(ms: Members, key: Seq<char>) -> Option<JsonView>
    decreases ms.len(),
{
    if ms.len() == 0 {
        None
    } else {
        match member(ms.drop_last(), key) {
            Some(v) => Some(v),
            None => if ms.last().0 == key {
                Some(ms.last().1)
            } else {
                None
            },
        }
    }
}

/// The members of `ms` whose key is none of `names`, in order.
pub open spec fn without(ms: Members, names: Seq<Seq<char>>) -> Members
    decreases ms.len(),
{
    if ms.len() == 0 {
        Seq::empty()
    } else if names.contains(ms.last().0) {
        without(ms.drop_last(), names)
    } else {
        without(ms.drop_last(), names).push(ms.last())
    }
}

/// `ms` with the member `(key, value)` appended where there is a value.
pub open spec fn put(ms: Members, key: Seq<char>, value: Option<JsonView>) -> Members {
    match value {
        Some(v) => ms.push((key, v)),
        None => ms,
    }
}

pub broadcast proof fn lemma_member_push(ms: Members, m: (Seq<char>, JsonView), key: Seq<char>)
    ensures
        #[trigger] member(ms.push(m), key) == (match member(ms, key) {
            Some(v) => Some(v),
            None => if m.0 == key {
                Some(m.1)
            } else {
                None
            },
        }),
{
    assert(ms.push(m).drop_last() =~= ms);
}

pub proof fn lemma_member_concat(a: Members, b: Members, key: Seq<char>)
    ensures
        member(a + b, key) == (match member(a, key) {
            Some(v) => Some(v),
            None => member(b, key),
        }),
    decreases b.len(),
{
    if b.len() == 0 {
        assert(a + b =~= a);
    } else {
        assert((a + b).drop_last() =~= a + b.drop_last());
        lemma_member_concat(a, b.drop_last(), key);
    }
}

/// A key that is found in a prefix is found there in the whole list.
pub proof fn lemma_member_take(ms: Members, k: int, key: Seq<char>)
    requires
        0 <= k <= ms.len(),
        member(ms.take(k), key) is Some,
    ensures
        member(ms, key) == member(ms.take(k), key),
{
    assert(ms =~= ms.take(k) + ms.skip(k));
    lemma_member_concat(ms.take(k), ms.skip(k), key);
}

/// `member` finds a key exactly where some member has it, and then returns
/// the value of one of those members.
pub proof fn lemma_member_has_key(ms: Members, key: Seq<char>)
    ensures
        member(ms, key) is Some <==> has_key(ms, key),
        member(ms, key) matches Some(v) ==> exists|i: int|
            0 <= i < ms.len() && #[trigger] ms[i] == (key, v),
    decreases ms.len(),
{
    if ms.len() > 0 {
        let p = ms.drop_last();
        lemma_member_has_key(p, key);
        if member(p, key) is Some {
            let v = member(p, key)->Some_0;
            let i = choose|i: int| 0 <= i < p.len() && #[trigger] p[i] == (key, v);
            assert(ms[i] == (key, v));
        } else if ms.last().0 == key {
            assert(ms[ms.len() - 1] == (key, ms.last().1));
        }
        if has_key(ms, key) {
            let i = choose|i: int| 0 <= i < ms.len() && (#[trigger] ms[i]).0 == key;
            if i < p.len() {
                assert(p[i].0 == key);
            }
        }
    }
}

/// Where the keys are distinct, `member` returns the value that stands
/// beside the key.
pub proof fn lemma_member_unique(ms: Members, i: int)
    requires
        distinct_keys(ms),
        0 <= i < ms.len(),
    ensures
        member(ms, ms[i].0) == Some(ms[i].1),
    decreases ms.len(),
{
    let p = ms.drop_last();
    let key = ms[i].0;
    if i == ms.len() - 1 {
        lemma_member_has_key(p, key);
        if has_key(p, key) {
            let j = choose|j: int| 0 <= j < p.len() && (#[trigger] p[j]).0 == key;
            assert(ms[j].0 == key);
        }
    } else {
        assert forall|a: int, b: int| 0 <= a < b < p.len() implies (#[trigger] p[a]).0 != (
        #[trigger] p[b]).0 by {
            assert(ms[a].0 != ms[b].0);
        }
        lemma_member_unique(p, i);
    }
}

/// A key that is none of `names` is found after dropping them as it was
/// found before.
pub proof fn lemma_member_without(ms: Members, names: Seq<Seq<char>>, key: Seq<char>)
    requires
        !names.contains(key),
    ensures
        member(without(ms, names), key) == member(ms, key),
    decreases ms.len(),
{
    if ms.len() > 0 {
        lemma_member_without(ms.drop_last(), names, key);
        if !names.contains(ms.last().0) {
            lemma_member_push(without(ms.drop_last(), names), ms.last(), key);
        }
    }
}

/// An object that is read as known members and a rest, and written as
/// known members followed by that rest, still holds every member of the
/// rest under its key.
pub proof fn lemma_rest_is_kept(known: Members, ms: Members, names: Seq<Seq<char>>, i: int)
    requires
        distinct_keys(ms),
        keys_within(known, names),
        0 <= i < ms.len(),
        !names.contains(ms[i].0),
    ensures
        member(known + without(ms, names), ms[i].0) == Some(ms[i].1),
{
    let key = ms[i].0;
    lemma_member_concat(known, without(ms, names), key);
    lemma_member_has_key(known, key);
    if has_key(known, key) {
        let k = choose|k: int| 0 <= k < known.len() && (#[trigger] known[k]).0 == key;
        assert(names.contains(known[k].0));
    }
    lemma_member_without(ms, names, key);
    lemma_member_unique(ms, i);
}

pub broadcast proof fn lemma_without_push(
    ms: Members,
    m: (Seq<char>, JsonView),
    names: Seq<Seq<char>>,
)
    ensures
        #[trigger] without(ms.push(m), names) == (if names.contains(m.0) {
            without(ms, names)
        } else {
            without(ms, names).push(m)
        }),
{
    assert(ms.push(m).drop_last() =~= ms);
}

pub proof fn lemma_without_concat(a: Members, b: Members, names: Seq<Seq<char>>)
    ensures
        without(a + b, names) == without(a, names) + without(b, names),
    decreases b.len(),
{
    if b.len() == 0 {
        assert(a + b =~= a);
        assert(without(a, names) + without(b, names) =~= without(a, names));
    } else {
        assert((a + b).drop_last() =~= a + b.drop_last());
        lemma_without_concat(a, b.drop_last(), names);
        assert((without(a, names) + without(b.drop_last(), names)).push(b.last()) =~= without(
            a,
            names,
        ) + without(b.drop_last(), names).push(b.last()));
    }
}

/// Dropping names that do not occur changes nothing.
pub proof fn lemma_without_outside(ms: Members, names: Seq<Seq<char>>)
    requires
        keys_outside(ms, names),
    ensures
        without(ms, names) == ms,
    decreases ms.len(),
{
    if ms.len() > 0 {
        let p = ms.drop_last();
        assert forall|i: int| 0 <= i < p.len() implies !names.contains((#[trigger] p[i]).0) by {
            assert(!names.contains(ms[i].0));
        }
        lemma_without_outside(p, names);
        assert(!names.contains(ms[ms.len() - 1].0));
        assert(p.push(ms.last()) =~= ms);
    } else {
        assert(ms =~= Seq::empty());
    }
}

/// Dropping every name that occurs leaves nothing.
pub proof fn lemma_without_within(ms: Members, names: Seq<Seq<char>>)
    requires
        keys_within(ms, names),
    ensures
        without(ms, names) == Seq::<(Seq<char>, JsonView)>::empty(),
    decreases ms.len(),
{
    if ms.len() > 0 {
        let p = ms.drop_last();
        assert forall|i: int| 0 <= i < p.len() implies names.contains((#[trigger] p[i]).0) by {
            assert(names.contains(ms[i].0));
        }
        lemma_without_within(p, names);
        assert(names.contains(ms[ms.len() - 1].0));
    }
}

/// What is left after dropping names holds none of them, holds only keys
/// that were there, and holds no key twice if the list did not.
pub proof fn lemma_without_keys(ms: Members, names: Seq<Seq<char>>)
    ensures
        keys_outside(without(ms, names), names),
        forall|key: Seq<char>| #[trigger] has_key(without(ms, names), key) ==> has_key(ms, key),
        distinct_keys(ms) ==> distinct_keys(without(ms, names)),
    decreases ms.len(),
{
    if ms.len() > 0 {
        let p = ms.drop_last();
        let w = without(p, names);
        let r = without(ms, names);
        lemma_without_keys(p, names);
        assert(r == if names.contains(ms.last().0) {
            w
        } else {
            w.push(ms.last())
        });
        assert forall|key: Seq<char>| #[trigger] has_key(r, key) implies has_key(ms, key) by {
            let i = choose|i: int| 0 <= i < r.len() && (#[trigger] r[i]).0 == key;
            if i < w.len() {
                assert(w[i].0 == key);
                assert(has_key(w, key));
                assert(has_key(p, key));
                let j = choose|j: int| 0 <= j < p.len() && (#[trigger] p[j]).0 == key;
                assert(ms[j].0 == key);
            } else {
                assert(ms[ms.len() - 1].0 == key);
            }
        }
        if distinct_keys(ms) {
            assert forall|a: int, b: int| 0 <= a < b < p.len() implies (#[trigger] p[a]).0 != (
            #[trigger] p[b]).0 by {
                assert(ms[a].0 != ms[b].0);
            }
            assert forall|a: int, b: int| 0 <= a < b < r.len() implies (#[trigger] r[a]).0 != (
            #[trigger] r[b]).0 by {
                if b < w.len() {
                    assert(w[a].0 != w[b].0);
                } else {
                    assert(w[a].0 == r[a].0);
                    assert(has_key(w, r[a].0));
                    assert(has_key(p, r[a].0));
                    let j = choose|j: int| 0 <= j < p.len() && (#[trigger] p[j]).0 == r[a].0;
                    assert(ms[j].0 != ms[ms.len() - 1].0);
                }
            }
        }
    }
}

pub broadcast proof fn lemma_has_key_push(ms: Members, m: (Seq<char>, JsonView), key: Seq<char>)
    ensures
        #[trigger] has_key(ms.push(m), key) <==> has_key(ms, key) || m.0 == key,
{
    let q = ms.push(m);
    if has_key(q, key) {
        let i = choose|i: int| 0 <= i < q.len() && (#[trigger] q[i]).0 == key;
        if i < ms.len() {
            assert(ms[i].0 == key);
        }
    }
    if has_key(ms, key) {
        let i = choose|i: int| 0 <= i < ms.len() && (#[trigger] ms[i]).0 == key;
        assert(q[i].0 == key);
    }
    if m.0 == key {
        assert(q[ms.len() as int].0 == key);
    }
}

pub broadcast proof fn lemma_distinct_push(ms: Members, m: (Seq<char>, JsonView))
    ensures
        #[trigger] distinct_keys(ms.push(m)) <==> distinct_keys(ms) && !has_key(ms, m.0),
{
    let q = ms.push(m);
    if distinct_keys(q) {
        assert forall|a: int, b: int| 0 <= a < b < ms.len() implies (#[trigger] ms[a]).0 != (
        #[trigger] ms[b]).0 by {
            assert(q[a].0 != q[b].0);
        }
        if has_key(ms, m.0) {
            let i = choose|i: int| 0 <= i < ms.len() && (#[trigger] ms[i]).0 == m.0;
            assert(q[i].0 != q[ms.len() as int].0);
        }
    }
    if distinct_keys(ms) && !has_key(ms, m.0) {
        assert forall|a: int, b: int| 0 <= a < b < q.len() implies (#[trigger] q[a]).0 != (
        #[trigger] q[b]).0 by {
            if b < ms.len() {
                assert(ms[a].0 != ms[b].0);
            } else {
                assert(ms[a].0 == q[a].0);
            }
        }
    }
}

pub broadcast proof fn lemma_keys_within_push(
    ms: Members,
    m: (Seq<char>, JsonView),
    names: Seq<Seq<char>>,
)
    ensures
        #[trigger] keys_within(ms.push(m), names) <==> keys_within(ms, names) && names.contains(
            m.0,
        ),
{
    let q = ms.push(m);
    if keys_within(q, names) {
        assert forall|i: int| 0 <= i < ms.len() implies names.contains((#[trigger] ms[i]).0) by {
            assert(names.contains(q[i].0));
        }
        assert(names.contains(q[ms.len() as int].0));
    }
    if keys_within(ms, names) && names.contains(m.0) {
        assert forall|i: int| 0 <= i < q.len() implies names.contains((#[trigger] q[i]).0) by {
            if i < ms.len() {
                assert(names.contains(ms[i].0));
            }
        }
    }
}

/// A list of known members followed by members that share no name with them
/// reads back as both: the known members are found under their names, and
/// dropping the names leaves the rest.
pub proof fn lemma_known_then_rest(known: Members, rest: Members, names: Seq<Seq<char>>)
    requires
        distinct_keys(known),
        keys_within(known, names),
        distinct_keys(rest),
        keys_outside(rest, names),
    ensures
        distinct_keys(known + rest),
        without(known + rest, names) == rest,
        forall|key: Seq<char>|
            names.contains(key) ==> #[trigger] member(known + rest, key) == member(known, key),
{
    let all = known + rest;
    assert forall|a: int, b: int| 0 <= a < b < all.len() implies (#[trigger] all[a]).0 != (
    #[trigger] all[b]).0 by {
        if b < known.len() {
            assert(known[a].0 != known[b].0);
        } else if a >= known.len() {
            assert(rest[a - known.len()].0 != rest[b - known.len()].0);
        } else {
            assert(names.contains(known[a].0));
            assert(!names.contains(rest[b - known.len()].0));
        }
    }
    lemma_without_concat(known, rest, names);
    lemma_without_within(known, names);
    lemma_without_outside(rest, names);
    assert(Seq::<(Seq<char>, JsonView)>::empty() + rest =~= rest);
    assert forall|key: Seq<char>| names.contains(key) implies #[trigger] member(all, key)
        == member(known, key) by {
        lemma_member_concat(known, rest, key);
        lemma_member_has_key(rest, key);
        if has_key(rest, key) {
            let i = choose|i: int| 0 <= i < rest.len() && (#[trigger] rest[i]).0 == key;
            assert(!names.contains(rest[i].0));
        }
    }
}

/// Copies a list of members.
pub fn clone_members(members: &Vec<(String, Json)>) -> (r: Vec<(String, Json)>)
    ensures
        r.deep_view() == members.deep_view(),
{
    let mut out: Vec<(String, Json)> = Vec::new();
    let mut i: usize = 0;
    while i < members.len()
        invariant
            i <= members.len(),
            out.len() == i,
            forall|k: int| 0 <= k < i ==> out@[k].deep_view() == members@[k].deep_view(),
        decreases members.len() - i,
    {
        out.push((members[i].0.clone(), members[i].1.clone()));
        i += 1;
    }
    assert(out.deep_view() =~= members.deep_view());
    out
}

impl Clone for Json {
    #[verifier::loop_isolation(false)]
    fn clone(&self) -> (r: Self)
        ensures
            r@ == self@,
        decreases self,
    {
        broadcast use group_json_view;

        match self {
            Json::Null => Json::Null,
            Json::Bool(b) => Json::Bool(*b),
            Json::Number(n) => Json::Number(n.clone()),
            Json::String(s) => Json::String(s.clone()),
            Json::Array(items) => {
                let mut out: Vec<Json> = Vec::new();
                let mut i: usize = 0;
                while i < items.len()
                    invariant
                        i <= items.len(),
                        out.len() == i,
                        forall|k: int| 0 <= k < i ==> out@[k]@ == items@[k]@,
                    decreases items.len() - i,
                {
                    out.push(items[i].clone());
                    i += 1;
                }
                assert(out.deep_view() =~= items.deep_view());
                Json::Array(out)
            },
            Json::Object(members) => {
                let mut out: Vec<(String, Json)> = Vec::new();
                let mut i: usize = 0;
                while i < members.len()
                    invariant
                        i <= members.len(),
                        out.len() == i,
                        forall|k: int|
                            0 <= k < i ==> out@[k].deep_view() == members@[k].deep_view(),
                    decreases members.len() - i,
                {
                    out.push((members[i].0.clone(), members[i].1.clone()));
                    i += 1;
                }
                assert(out.deep_view() =~= members.deep_view());
                Json::Object(out)
            },
        }
    }
}

/// Looks a key up in a list of members.
pub fn get<'a>(members: &'a Vec<(String, Json)>, key: &str) -> (r: Option<&'a Json>)
    ensures
        match r {
            Some(j) => member(members.deep_view(), key@) == Some(j@),
            None => member(members.deep_view(), key@) is None,
        },
{
    let k = key.to_owned();
    let ghost ms = members.deep_view();
    let mut i: usize = 0;
    while i < members.len()
        invariant
            i <= members.len(),
            k@ == key@,
            ms == members.deep_view(),
            member(ms.take(i as int), key@) is None,
        decreases members.len() - i,
    {
        proof {
            assert(ms.take(i + 1) =~= ms.take(i as int).push(ms[i as int]));
            lemma_member_push(ms.take(i as int), ms[i as int], key@);
        }
        if members[i].0 == k {
            proof {
                lemma_member_take(ms, i + 1, key@);
            }
            return Some(&members[i].1);
        }
        i += 1;
    }
    proof {
        assert(ms.take(i as int) =~= ms);
    }
    None
}

/// Tells whether no key occurs twice.
pub fn has_distinct_keys(members: &Vec<(String, Json)>) -> (r: bool)
    ensures
        r == distinct_keys(members.deep_view()),
{
    let ghost ms = members.deep_view();
    let mut j: usize = 0;
    while j < members.len()
        invariant
            j <= members.len(),
            ms == members.deep_view(),
            forall|a: int, b: int| 0 <= a < b < j ==> (#[trigger] ms[a]).0 != (#[trigger] ms[b]).0,
        decreases members.len() - j,
    {
        let mut i: usize = 0;
        while i < j
            invariant
                i <= j,
                j < members.len(),
                ms == members.deep_view(),
                forall|a: int| 0 <= a < i ==> (#[trigger] ms[a]).0 != ms[j as int].0,
            decreases j - i,
        {
            if members[i].0 == members[j].0 {
                proof {
                    assert(ms[i as int].0 == ms[j as int].0);
                }
                return false;
            }
            i += 1;
        }
        j += 1;
    }
    true
}

/// Tells whether `key` is one of `names`.
pub fn is_one_of(names: &Vec<String>, key: &String) -> (r: bool)
    ensures
        r == names.deep_view().contains(key@),
{
    let ghost ns = names.deep_view();
    let mut i: usize = 0;
    while i < names.len()
        invariant
            i <= names.len(),
            ns == names.deep_view(),
            forall|a: int| 0 <= a < i ==> ns[a] != key@,
        decreases names.len() - i,
    {
        if names[i] == *key {
            proof {
                assert(ns[i as int] == key@);
            }
            return true;
        }
        i += 1;
    }
    false
}

/// Tells whether no key is one of `names`.
pub fn has_no_key_of(members: &Vec<(String, Json)>, names: &Vec<String>) -> (r: bool)
    ensures
        r == keys_outside(members.deep_view(), names.deep_view()),
{
    let ghost ms = members.deep_view();
    let ghost ns = names.deep_view();
    let mut i: usize = 0;
    while i < members.len()
        invariant
            i <= members.len(),
            ms == members.deep_view(),
            ns == names.deep_view(),
            forall|k: int| 0 <= k < i ==> !ns.contains((#[trigger] ms[k]).0),
        decreases members.len() - i,
    {
        if is_one_of(names, &members[i].0) {
            assert(ns.contains(ms[i as int].0));
            return false;
        }
        i += 1;
    }
    true
}

/// Tells whether members can stand beside the members of the given names
/// in one object: no key twice, and none of the names.
pub fn can_stand_beside(members: &Vec<(String, Json)>, names: &Vec<String>) -> (r: bool)
    ensures
        r == (distinct_keys(members.deep_view()) && keys_outside(
            members.deep_view(),
            names.deep_view(),
        )),
{
    has_distinct_keys(members) && has_no_key_of(members, names)
}

/// Copies the members whose key is none of `names`.
pub fn rest(members: &Vec<(String, Json)>, names: &Vec<String>) -> (r: Vec<(String, Json)>)
    ensures
        r.deep_view() == without(members.deep_view(), names.deep_view()),
{
    let ghost ms = members.deep_view();
    let ghost ns = names.deep_view();
    let mut out: Vec<(String, Json)> = Vec::new();
    let mut i: usize = 0;
    assert(out.deep_view() =~= without(ms.take(0), ns));
    while i < members.len()
        invariant
            i <= members.len(),
            ms == members.deep_view(),
            ns == names.deep_view(),
            out.deep_view() == without(ms.take(i as int), ns),
        decreases members.len() - i,
    {
        proof {
            assert(ms.take(i + 1) =~= ms.take(i as int).push(ms[i as int]));
            lemma_without_push(ms.take(i as int), ms[i as int], ns);
        }
        if !is_one_of(names, &members[i].0) {
            let ghost before = out.deep_view();
            out.push((members[i].0.clone(), members[i].1.clone()));
            assert(out.deep_view() =~= before.push(ms[i as int]));
        }
        i += 1;
    }
    proof {
        assert(ms.take(i as int) =~= ms);
    }
    out
}

} // verus!
