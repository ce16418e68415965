//! Sets of text: the extension URIs that a document declares, the roles of
//! an asset.

use crate::field::{clone_strings, strings_json, strings_to_json};
use crate::json::{is_one_of, Json};
use vstd::prelude::*;

verus! {

/// A set of text values. It remembers the order in which they came, which
/// is the order in which they are written.
#[derive(Debug, PartialEq)]
pub struct TextSet {
    texts: Vec<String>,
}

/// The set of extension schema URIs that a document declares.
pub type Extensions = TextSet;

impl DeepView for TextSet {
    type V = Seq<Seq<char>>;

    closed spec fn deep_view(&self) -> Seq<Seq<char>> {
        self.texts.deep_view()
    }
}

impl View for TextSet {
    type V = Seq<Seq<char>>;

    open spec fn view(&self) -> Seq<Seq<char>> {
        self.deep_view()
    }
}

/// `s` with `t` added at the end, unless it is there already.
pub open spec fn insert(s: Seq<Seq<char>>, t: Seq<char>) -> Seq<Seq<char>> {
    if s.contains(t) {
        s
    } else {
        s.push(t)
    }
}

/// The texts of a list, each where it first occurs.
pub open spec fn collect(texts: Seq<Seq<char>>) -> Seq<Seq<char>>
    decreases texts.len(),
{
    if texts.len() == 0 {
        Seq::empty()
    } else {
        insert(collect(texts.drop_last()), texts.last())
    }
}

/// `s` without `t`.
pub open spec fn discard(s: Seq<Seq<char>>, t: Seq<char>) -> Seq<Seq<char>>
    decreases s.len(),
{
    if s.len() == 0 {
        Seq::empty()
    } else if s.last() == t {
        discard(s.drop_last(), t)
    } else {
        discard(s.drop_last(), t).push(s.last())
    }
}

/// Adding a text keeps a set a set, and adds that text and no other.
pub proof fn lemma_insert(s: Seq<Seq<char>>, t: Seq<char>)
    ensures
        s.no_duplicates() ==> insert(s, t).no_duplicates(),
        forall|x: Seq<char>| #[trigger] insert(s, t).contains(x) <==> s.contains(x) || x == t,
{
    let q = insert(s, t);
    if !s.contains(t) {
        if s.no_duplicates() {
            assert forall|i: int, j: int| 0 <= i < q.len() && 0 <= j < q.len() && i != j implies q[i]
                != q[j] by {
                if i < s.len() && j < s.len() {
                } else if i < s.len() {
                    assert(s[i] == q[i]);
                } else {
                    assert(s[j] == q[j]);
                }
            }
        }
        assert forall|x: Seq<char>| #[trigger] q.contains(x) <==> s.contains(x) || x == t by {
            if q.contains(x) {
                let i = choose|i: int| 0 <= i < q.len() && q[i] == x;
                if i < s.len() {
                    assert(s[i] == x);
                }
            }
            if s.contains(x) {
                let i = choose|i: int| 0 <= i < s.len() && s[i] == x;
                assert(q[i] == x);
            }
            if x == t {
                assert(q[s.len() as int] == x);
            }
        }
    }
}

/// What `collect` gives is a set with the texts of the list.
pub proof fn lemma_collect(texts: Seq<Seq<char>>)
    ensures
        collect(texts).no_duplicates(),
        forall|x: Seq<char>| #[trigger] collect(texts).contains(x) <==> texts.contains(x),
    decreases texts.len(),
{
    if texts.len() > 0 {
        let p = texts.drop_last();
        lemma_collect(p);
        lemma_insert(collect(p), texts.last());
        assert forall|x: Seq<char>| #[trigger] collect(texts).contains(x) <==> texts.contains(
            x,
        ) by {
            if texts.contains(x) {
                let i = choose|i: int| 0 <= i < texts.len() && texts[i] == x;
                if i < p.len() {
                    assert(p[i] == x);
                }
            }
            if p.contains(x) {
                let i = choose|i: int| 0 <= i < p.len() && p[i] == x;
                assert(texts[i] == x);
            }
            if x == texts.last() {
                assert(texts[texts.len() - 1] == x);
            }
        }
    }
}

/// A list that holds no text twice is what `collect` makes of it.
pub proof fn lemma_collect_set(texts: Seq<Seq<char>>)
    requires
        texts.no_duplicates(),
    ensures
        collect(texts) == texts,
    decreases texts.len(),
{
    if texts.len() > 0 {
        let p = texts.drop_last();
        lemma_collect_set(p);
        if p.contains(texts.last()) {
            let i = choose|i: int| 0 <= i < p.len() && p[i] == texts.last();
            assert(texts[i] == texts[texts.len() - 1]);
        }
        assert(p.push(texts.last()) =~= texts);
    } else {
        assert(texts =~= Seq::empty());
    }
}

/// Removing a text removes that text and no other, and keeps a set a set.
pub proof fn lemma_discard(s: Seq<Seq<char>>, t: Seq<char>)
    ensures
        forall|x: Seq<char>| #[trigger] discard(s, t).contains(x) <==> s.contains(x) && x != t,
        s.no_duplicates() ==> discard(s, t).no_duplicates(),
        !s.contains(t) ==> discard(s, t) == s,
    decreases s.len(),
{
    if s.len() > 0 {
        let p = s.drop_last();
        let d = discard(p, t);
        let r = discard(s, t);
        lemma_discard(p, t);
        assert forall|x: Seq<char>| #[trigger] r.contains(x) <==> s.contains(x) && x != t by {
            if r.contains(x) {
                let i = choose|i: int| 0 <= i < r.len() && r[i] == x;
                if i < d.len() {
                    assert(d[i] == x);
                    assert(d.contains(x));
                    let k = choose|k: int| 0 <= k < p.len() && p[k] == x;
                    assert(s[k] == x);
                } else {
                    assert(s[s.len() - 1] == x);
                }
            }
            if s.contains(x) && x != t {
                let i = choose|i: int| 0 <= i < s.len() && s[i] == x;
                if i < p.len() {
                    assert(p[i] == x);
                    assert(d.contains(x));
                    let k = choose|k: int| 0 <= k < d.len() && d[k] == x;
                    assert(r[k] == x);
                } else {
                    assert(r[d.len() as int] == x);
                }
            }
        }
        if s.no_duplicates() {
            assert(p.no_duplicates());
            if s.last() != t {
                assert forall|i: int, j: int|
                    0 <= i < r.len() && 0 <= j < r.len() && i != j implies r[i] != r[j] by {
                    if i < d.len() && j < d.len() {
                    } else {
                        let k = if i < d.len() {
                            i
                        } else {
                            j
                        };
                        assert(d[k] == r[k]);
                        assert(d.contains(d[k]));
                        let m = choose|m: int| 0 <= m < p.len() && p[m] == d[k];
                        assert(s[m] != s[s.len() - 1]);
                    }
                }
            }
        }
        if !s.contains(t) {
            assert(s[s.len() - 1] != t);
            if p.contains(t) {
                let i = choose|i: int| 0 <= i < p.len() && p[i] == t;
                assert(s[i] == t);
            }
            assert(p.push(s.last()) =~= s);
        }
    } else {
        assert(s =~= Seq::empty());
    }
}

impl Clone for TextSet {
    fn clone(&self) -> (r: Self)
        ensures
            r@ == self@,
    {
        TextSet { texts: clone_strings(&self.texts) }
    }
}

impl TextSet {
    /// The empty set.
    pub fn new() -> (r: TextSet)
        ensures
            r@ == Seq::<Seq<char>>::empty(),
    {
        let r = TextSet { texts: Vec::new() };
        assert(r@ =~= Seq::empty());
        r
    }

    /// The set of the texts of a list, each where it first occurs.
    pub fn from_texts(texts: Vec<String>) -> (r: TextSet)
        ensures
            r@ == collect(texts.deep_view()),
            r@.no_duplicates(),
    {
        let ghost ts = texts.deep_view();
        let mut out = TextSet::new();
        let mut i: usize = 0;
        assert(ts.take(0) =~= Seq::empty());
        while i < texts.len()
            invariant
                i <= texts.len(),
                ts == texts.deep_view(),
                out@ == collect(ts.take(i as int)),
            decreases texts.len() - i,
        {
            proof {
                assert(ts.take(i + 1).drop_last() =~= ts.take(i as int));
            }
            out.add(texts[i].as_str());
            i += 1;
        }
        proof {
            assert(ts.take(i as int) =~= ts);
            lemma_collect(ts);
        }
        out
    }

    /// The number of texts.
    pub fn len(&self) -> (n: usize)
        ensures
            n == self@.len(),
    {
        self.texts.len()
    }

    /// Tells whether the set is empty.
    pub fn is_empty(&self) -> (r: bool)
        ensures
            r == (self@.len() == 0),
    {
        self.texts.len() == 0
    }

    /// The texts, in the order in which they are written.
    pub fn texts(&self) -> (r: &Vec<String>)
        ensures
            r.deep_view() == self@,
    {
        &self.texts
    }

    /// Tells whether no text occurs twice, as it is for every set that the
    /// functions of this type have made.
    pub fn is_set(&self) -> (r: bool)
        ensures
            r == self@.no_duplicates(),
    {
        let ghost s = self@;
        let mut j: usize = 0;
        while j < self.texts.len()
            invariant
                j <= self.texts.len(),
                s == self.texts.deep_view(),
                forall|a: int, b: int| 0 <= a < b < j ==> s[a] != s[b],
            decreases self.texts.len() - j,
        {
            let mut i: usize = 0;
            while i < j
                invariant
                    i <= j,
                    j < self.texts.len(),
                    s == self.texts.deep_view(),
                    forall|a: int| 0 <= a < i ==> s[a] != s[j as int],
                decreases j - i,
            {
                if self.texts[i] == self.texts[j] {
                    assert(s[i as int] == s[j as int]);
                    return false;
                }
                i += 1;
            }
            j += 1;
        }
        assert forall|a: int, b: int| 0 <= a < s.len() && 0 <= b < s.len() && a != b implies s[a]
            != s[b] by {
            if a < b {
                assert(s[a] != s[b]);
            } else {
                assert(s[b] != s[a]);
            }
        }
        true
    }

    /// Tells whether `text` is in the set.
    pub fn contains(&self, text: &str) -> (r: bool)
        ensures
            r == self@.contains(text@),
    {
        let t = text.to_owned();
        is_one_of(&self.texts, &t)
    }

    /// Adds `text`, and tells whether it was new.
    pub fn add(&mut self, text: &str) -> (r: bool)
        ensures
            final(self)@ == insert(old(self)@, text@),
            r == !old(self)@.contains(text@),
            old(self)@.no_duplicates() ==> final(self)@.no_duplicates(),
    {
        let t = text.to_owned();
        proof {
            lemma_insert(self@, text@);
        }
        if is_one_of(&self.texts, &t) {
            false
        } else {
            self.texts.push(t);
            assert(self@ =~= old(self)@.push(text@));
            true
        }
    }

    /// Removes `text`, and tells whether it was there.
    pub fn remove(&mut self, text: &str) -> (r: bool)
        ensures
            final(self)@ == discard(old(self)@, text@),
            r == old(self)@.contains(text@),
            !final(self)@.contains(text@),
            old(self)@.no_duplicates() ==> final(self)@.no_duplicates(),
    {
        let t = text.to_owned();
        let ghost s = self@;
        let found = is_one_of(&self.texts, &t);
        let mut out: Vec<String> = Vec::new();
        let mut i: usize = 0;
        assert(out.deep_view() =~= discard(s.take(0), text@));
        while i < self.texts.len()
            invariant
                i <= self.texts.len(),
                s == self.texts.deep_view(),
                t@ == text@,
                out.deep_view() == discard(s.take(i as int), text@),
            decreases self.texts.len() - i,
        {
            proof {
                assert(s.take(i + 1).drop_last() =~= s.take(i as int));
            }
            if self.texts[i] != t {
                let ghost before = out.deep_view();
                out.push(self.texts[i].clone());
                assert(out.deep_view() =~= before.push(s[i as int]));
            }
            i += 1;
        }
        proof {
            assert(s.take(i as int) =~= s);
            lemma_discard(s, text@);
        }
        self.texts = out;
        found
    }

    /// Writes the texts as a JSON array.
    pub fn to_json(&self) -> (j: Json)
        ensures
            j@ == strings_json(self@),
    {
        strings_to_json(&self.texts)
    }
}

} // verus!
