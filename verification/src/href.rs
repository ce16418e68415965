//! Where a document came from, and where its links point.
//!
//! A document that was read remembers its location. A link's href is
//! either absolute (a URL, or a path that starts at the root) or
//! relative to the location of the document that owns the link.

use crate::error::{Error, ErrorView};
use crate::wire::{join_url, parse_url, url_joined, url_of_text, Url, UrlView};
use vstd::prelude::*;
use vstd::std_specs::iter::IteratorSpec;

verus! {

/// A document that can remember the location it was read from. The
/// location is never written with the document.
pub trait Href {
    /// The location, if the document knows one.
    spec fn href_view(&self) -> Option<Seq<char>>;

    /// The location that the document was read from, if it knows one.
    fn href(&self) -> (r: Option<&str>)
        ensures
            match r {
                Some(s) => self.href_view() == Some(s@),
                None => self.href_view() is None,
            },
    ;

    /// Remembers `href` as the document's location.
    fn set_href(&mut self, href: &str)
        ensures
            final(self).href_view() == Some(href@),
    ;
}

/// The characters of a text.
fn chars_of(s: &str) -> (v: Vec<char>)
    ensures
        v@ == s@,
{
    let mut it = s.chars();
    let mut v: Vec<char> = Vec::new();
    assert(s@.skip(0) =~= s@);
    loop
        invariant
            v@.len() <= s@.len(),
            it.remaining() == s@.skip(v@.len() as int),
            v@ == s@.take(v@.len() as int),
        ensures
            v@ == s@,
        decreases s@.len() - v@.len(),
    {
        let ghost before = v@;
        match it.next() {
            Some(c) => {
                v.push(c);
                assert(s@.skip(before.len() as int).drop_first() =~= s@.skip(v@.len() as int));
                assert(v@ =~= s@.take(v@.len() as int));
            },
            None => {
                assert(s@.take(s@.len() as int) =~= s@);
                break ;
            },
        }
    }
    v
}

/// The scheme is one of the web: it starts with `http`.
pub open spec fn is_web_scheme(scheme: Seq<char>) -> bool {
    scheme.len() >= 4 && scheme[0] == 'h' && scheme[1] == 't' && scheme[2] == 't' && scheme[3]
        == 'p'
}

/// The URL, if its scheme is one of the web.
pub open spec fn web_url(url: Option<UrlView>) -> Option<UrlView> {
    match url {
        Some(u) => if is_web_scheme(u.scheme) {
            Some(u)
        } else {
            None
        },
        None => None,
    }
}

/// Keeps a URL whose scheme is one of the web.
pub fn web_only(url: Option<Url>) -> (r: Option<Url>)
    ensures
        r.deep_view() == web_url(url.deep_view()),
{
    match url {
        Some(u) => {
            let scheme = chars_of(u.scheme.as_str());
            if scheme.len() >= 4 && scheme[0] == 'h' && scheme[1] == 't' && scheme[2] == 't'
                && scheme[3] == 'p' {
                Some(u)
            } else {
                None
            }
        },
        None => None,
    }
}

/// The URL that an href is, if it is one that is fetched over the web.
pub fn href_to_url(href: &str) -> (r: Option<Url>)
    ensures
        r.deep_view() == web_url(url_of_text(href@)),
{
    web_only(parse_url(href))
}

/// A path that starts at the root.
pub open spec fn is_absolute_path(href: Seq<char>) -> bool {
    href.len() > 0 && href[0] == '/'
}

/// Tells whether a text is a path that starts at the root.
pub fn starts_at_root(href: &str) -> (r: bool)
    ensures
        r == is_absolute_path(href@),
{
    let chars = chars_of(href);
    chars.len() > 0 && chars[0] == '/'
}

/// Tells whether an href is absolute: a URL, or a path that starts at the
/// root.
pub fn is_absolute(href: &str) -> (r: bool)
    ensures
        r == (url_of_text(href@) is Some || is_absolute_path(href@)),
{
    parse_url(href).is_some() || starts_at_root(href)
}

/// The index of the last `/` of a text, or -1.
pub open spec fn last_slash(s: Seq<char>) -> int
    decreases s.len(),
{
    if s.len() == 0 {
        -1
    } else if s.last() == '/' {
        s.len() - 1
    } else {
        last_slash(s.drop_last())
    }
}

/// A path up to and with its last `/`: the directory of what it names.
pub open spec fn directory(path: Seq<char>) -> Seq<char> {
    path.take(last_slash(path) + 1)
}

/// The segments of a path: what stands between its `/`.
pub open spec fn split(s: Seq<char>) -> Seq<Seq<char>>
    decreases s.len(),
{
    if s.len() == 0 {
        seq![Seq::empty()]
    } else if s.last() == '/' {
        split(s.drop_last()).push(Seq::empty())
    } else {
        let before = split(s.drop_last());
        before.drop_last().push(before.last().push(s.last()))
    }
}

/// The segment `.`, which names the directory it stands in.
pub open spec fn here() -> Seq<char> {
    seq!['.']
}

/// The segment `..`, which names the directory above.
pub open spec fn above() -> Seq<char> {
    seq!['.', '.']
}

/// The segments that are left once `segment` has been followed from
/// `stack`: `.` stays, `..` goes up where it can, a name goes down.
pub open spec fn follow(stack: Seq<Seq<char>>, segment: Seq<char>) -> Seq<Seq<char>> {
    if segment == here() {
        stack
    } else if segment == above() {
        if stack.len() > 0 {
            stack.drop_last()
        } else {
            stack
        }
    } else {
        stack.push(segment)
    }
}

/// The segments without `.` and `..`: each segment in turn is followed.
pub open spec fn normal(segments: Seq<Seq<char>>) -> Seq<Seq<char>>
    decreases segments.len(),
{
    if segments.len() == 0 {
        Seq::empty()
    } else {
        follow(normal(segments.drop_last()), segments.last())
    }
}

/// The path of segments: the segments with `/` between them.
pub open spec fn path_of(segments: Seq<Seq<char>>) -> Seq<char>
    decreases segments.len(),
{
    if segments.len() == 0 {
        Seq::empty()
    } else if segments.len() == 1 {
        segments[0]
    } else {
        path_of(segments.drop_last()) + seq!['/'] + segments.last()
    }
}

/// The path that `reference` names, seen from the absolute path `base`:
/// the reference is put in the place of what follows the last `/` of the
/// base, and then `.` and `..` are followed.
pub open spec fn join_path(base: Seq<char>, reference: Seq<char>) -> Seq<char> {
    seq!['/'] + path_of(normal(split((directory(base) + reference).skip(1))))
}

/// The last `/` of a text lies in it, if there is one.
pub proof fn lemma_last_slash(s: Seq<char>)
    ensures
        -1 <= last_slash(s) < s.len(),
        last_slash(s) >= 0 ==> s[last_slash(s)] == '/',
        forall|i: int| last_slash(s) < i < s.len() ==> s[i] != '/',
    decreases s.len(),
{
    if s.len() > 0 {
        lemma_last_slash(s.drop_last());
        if s.last() != '/' {
            assert forall|i: int| last_slash(s) < i < s.len() implies s[i] != '/' by {
                if i < s.len() - 1 {
                    assert(s.drop_last()[i] == s[i]);
                }
            }
        }
    }
}

/// A path has at least one segment.
pub proof fn lemma_split_len(s: Seq<char>)
    ensures
        split(s).len() >= 1,
    decreases s.len(),
{
    if s.len() > 0 {
        lemma_split_len(s.drop_last());
    }
}

/// The segments that a stack of ranges of `chars` stands for.
pub open spec fn segments_of(chars: Seq<char>, stack: Seq<(usize, usize)>) -> Seq<Seq<char>> {
    Seq::new(stack.len(), |k: int| chars.subrange(stack[k].0 as int, stack[k].1 as int))
}

/// Every range of the stack lies in a text of `n` characters.
pub open spec fn ranges_within(stack: Seq<(usize, usize)>, n: int) -> bool {
    forall|k: int| 0 <= k < stack.len() ==> (#[trigger] stack[k]).0 <= stack[k].1 <= n
}

/// Follows the segment `chars[start..end]` from the stack.
fn follow_segment(stack: &mut Vec<(usize, usize)>, chars: &Vec<char>, start: usize, end: usize)
    requires
        start <= end <= chars.len(),
        ranges_within(old(stack)@, chars.len() as int),
    ensures
        ranges_within(final(stack)@, chars.len() as int),
        segments_of(chars@, final(stack)@) == follow(
            segments_of(chars@, old(stack)@),
            chars@.subrange(start as int, end as int),
        ),
{
    let ghost segment = chars@.subrange(start as int, end as int);
    let ghost before = segments_of(chars@, stack@);
    if end - start == 1 && chars[start] == '.' {
        assert(segment =~= here());
    } else if end - start == 2 && chars[start] == '.' && chars[start + 1] == '.' {
        assert(segment =~= above());
        if stack.len() > 0 {
            stack.pop();
            assert(segments_of(chars@, stack@) =~= before.drop_last());
        }
    } else {
        assert(segment != here()) by {
            if segment == here() {
                assert(segment.len() == 1 && segment[0] == '.');
            }
        }
        assert(segment != above()) by {
            if segment == above() {
                assert(segment.len() == 2 && segment[0] == '.' && segment[1] == '.');
            }
        }
        stack.push((start, end));
        assert(segments_of(chars@, stack@) =~= before.push(segment));
    }
}

/// Resolves `reference` against the absolute path `base`.
fn join_paths(base: &str, reference: &str) -> (r: String)
    requires
        is_absolute_path(base@),
    ensures
        r@ == join_path(base@, reference@),
{
    let base_chars = chars_of(base);
    let mut cut: usize = 0;
    let mut i: usize = 0;
    assert(base@.take(0) =~= Seq::empty());
    while i < base_chars.len()
        invariant
            i <= base_chars.len(),
            base_chars@ == base@,
            cut == last_slash(base@.take(i as int)) + 1,
        decreases base_chars.len() - i,
    {
        proof {
            assert(base@.take(i + 1).drop_last() =~= base@.take(i as int));
        }
        if base_chars[i] == '/' {
            cut = i + 1;
        }
        i += 1;
    }
    proof {
        assert(base@.take(i as int) =~= base@);
        lemma_last_slash(base@);
    }
    let mut merged: String = base.substring_char(0, cut).to_owned();
    merged.append(reference);
    assert(merged@ =~= directory(base@) + reference@);
    assert(merged@.len() > 0 && merged@[0] == '/');
    let chars = chars_of(merged.as_str());
    let ghost tail = chars@.skip(1);
    let mut stack: Vec<(usize, usize)> = Vec::new();
    let mut start: usize = 1;
    let mut j: usize = 1;
    assert(tail.take(0) =~= Seq::empty());
    assert(segments_of(chars@, stack@) =~= Seq::empty());
    assert(chars@.subrange(1, 1) =~= Seq::empty());
    assert(split(tail.take(0)).drop_last() =~= Seq::empty());
    while j < chars.len()
        invariant
            1 <= start <= j <= chars.len(),
            chars@ == merged@,
            tail == chars@.skip(1),
            ranges_within(stack@, chars.len() as int),
            segments_of(chars@, stack@) == normal(split(tail.take(j - 1)).drop_last()),
            chars@.subrange(start as int, j as int) == split(tail.take(j - 1)).last(),
        decreases chars.len() - j,
    {
        proof {
            let p = tail.take(j - 1);
            lemma_split_len(p);
            assert(tail.take(j as int).drop_last() =~= p);
            assert(tail.take(j as int).last() == chars@[j as int]);
            if chars@[j as int] == '/' {
                assert(split(tail.take(j as int)).drop_last() =~= split(p));
                assert(split(p) =~= split(p).drop_last().push(split(p).last()));
                assert(chars@.subrange(j + 1, j + 1) =~= Seq::empty());
            } else {
                assert(split(tail.take(j as int)).drop_last() =~= split(p).drop_last());
                assert(chars@.subrange(start as int, j + 1) =~= chars@.subrange(
                    start as int,
                    j as int,
                ).push(chars@[j as int]));
            }
        }
        if chars[j] == '/' {
            follow_segment(&mut stack, &chars, start, j);
            start = j + 1;
        }
        j += 1;
    }
    proof {
        let p = tail.take(j - 1);
        lemma_split_len(p);
        assert(p =~= tail);
        assert(split(tail) =~= split(tail).drop_last().push(split(tail).last()));
    }
    follow_segment(&mut stack, &chars, start, j);
    let ghost segments = segments_of(chars@, stack@);
    assert(segments == normal(split(tail)));
    let mut out: String = "/".to_owned();
    proof {
        reveal_strlit("/");
        assert("/"@ =~= seq!['/']);
        assert(segments.take(0) =~= Seq::empty());
        assert(out@ =~= seq!['/'] + path_of(segments.take(0)));
    }
    let mut k: usize = 0;
    while k < stack.len()
        invariant
            k <= stack.len(),
            chars@ == merged@,
            "/"@ == seq!['/'],
            ranges_within(stack@, chars.len() as int),
            segments == segments_of(chars@, stack@),
            out@ == seq!['/'] + path_of(segments.take(k as int)),
        decreases stack.len() - k,
    {
        let from: usize = stack[k].0;
        let to: usize = stack[k].1;
        proof {
            assert(segments.take(k + 1).drop_last() =~= segments.take(k as int));
            assert(segments.take(k + 1).last() == chars@.subrange(from as int, to as int));
            if k == 0 {
                assert(segments.take(1).len() == 1);
                assert(path_of(segments.take(0)) =~= Seq::empty());
            }
        }
        if k > 0 {
            out.append("/");
        }
        out.append(merged.as_str().substring_char(from, to));
        proof {
            if k == 0 {
                assert(out@ =~= seq!['/'] + path_of(segments.take(1)));
            } else {
                assert(out@ =~= seq!['/'] + (path_of(segments.take(k as int)) + seq!['/']
                    + segments.take(k + 1).last()));
            }
        }
        k += 1;
    }
    proof {
        assert(segments.take(k as int) =~= segments);
    }
    out
}

/// The location that an href stands for, given what the document knows of
/// its own location and what `url` makes of the two: an absolute href is
/// itself; a relative one needs the document's location, and is resolved
/// against it as a URL or as a path.
pub open spec fn resolved(
    base: Option<Seq<char>>,
    href: Seq<char>,
    href_is_url: bool,
    base_is_url: bool,
    joined: Option<Seq<char>>,
) -> Result<Seq<char>, ErrorView> {
    if href_is_url || is_absolute_path(href) {
        Ok(href)
    } else {
        match base {
            None => Err(ErrorView::NoHref),
            Some(b) => if base_is_url {
                match joined {
                    Some(s) => Ok(s),
                    None => Err(ErrorView::InvalidHref(href)),
                }
            } else if is_absolute_path(b) {
                Ok(join_path(b, href))
            } else {
                Err(ErrorView::InvalidHref(b))
            },
        }
    }
}

/// The location that an href stands for in a document at `base`.
pub open spec fn resolution(base: Option<Seq<char>>, href: Seq<char>) -> Result<
    Seq<char>,
    ErrorView,
> {
    resolved(
        base,
        href,
        url_of_text(href) is Some,
        base matches Some(b) && url_of_text(b) is Some,
        match base {
            Some(b) => url_joined(b, href),
            None => None,
        },
    )
}

/// Resolves an href, given what `url` makes of it and of the document's
/// location: whether each is a URL, and what the href is joined to.
pub fn resolve_with(
    base: Option<&str>,
    href: &str,
    href_is_url: bool,
    base_is_url: bool,
    joined: Option<String>,
) -> (r: Result<String, Error>)
    ensures
        match r {
            Ok(s) => resolved(
                match base {
                    Some(b) => Some(b@),
                    None => None,
                },
                href@,
                href_is_url,
                base_is_url,
                joined.deep_view(),
            ) == Ok::<Seq<char>, ErrorView>(s@),
            Err(e) => resolved(
                match base {
                    Some(b) => Some(b@),
                    None => None,
                },
                href@,
                href_is_url,
                base_is_url,
                joined.deep_view(),
            ) == Err::<Seq<char>, ErrorView>(e@),
        },
{
    if href_is_url || starts_at_root(href) {
        return Ok(href.to_owned());
    }
    match base {
        None => Err(Error::NoHref),
        Some(b) => {
            if base_is_url {
                match joined {
                    Some(s) => Ok(s),
                    None => Err(Error::InvalidHref(href.to_owned())),
                }
            } else if starts_at_root(b) {
                Ok(join_paths(b, href))
            } else {
                Err(Error::InvalidHref(b.to_owned()))
            }
        },
    }
}

/// Resolves an href of a document whose location is `base`, if it has one.
/// An absolute href is returned as it is. A relative one is resolved
/// against the location; without a location this fails with `NoHref`.
pub fn resolve(base: Option<&str>, href: &str) -> (r: Result<String, Error>)
    ensures
        match r {
            Ok(s) => resolution(
                match base {
                    Some(b) => Some(b@),
                    None => None,
                },
                href@,
            ) == Ok::<Seq<char>, ErrorView>(s@),
            Err(e) => resolution(
                match base {
                    Some(b) => Some(b@),
                    None => None,
                },
                href@,
            ) == Err::<Seq<char>, ErrorView>(e@),
        },
{
    let href_is_url = parse_url(href).is_some();
    match base {
        Some(b) => {
            let base_is_url = parse_url(b).is_some();
            let joined = join_url(b, href);
            resolve_with(base, href, href_is_url, base_is_url, joined)
        },
        None => resolve_with(base, href, href_is_url, false, None),
    }
}

} // verus!
