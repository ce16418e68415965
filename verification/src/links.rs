//! The links of a document, handled alike for every kind.

use crate::catalog::{Catalog, CatalogView};
use crate::collection::{Collection, CollectionView};
use crate::error::{Error, ErrorView};
use crate::href::{resolution, resolve, Href};
use crate::item::{Item, ItemView};
use crate::link::{
    find_link, first_with_rel, lemma_with_link, lemma_without_rel, links_of, links_valid,
    remove_links, set_link, with_link, with_rel, without_rel, Link, LinkView,
};
use vstd::prelude::*;

verus! {

/// The link with its href resolved in a document at `base`.
pub open spec fn link_resolved(base: Option<Seq<char>>, link: LinkView) -> Result<
    LinkView,
    ErrorView,
> {
    match resolution(base, link.href) {
        Ok(href) => Ok(LinkView { href, ..link }),
        Err(e) => Err(e),
    }
}

/// The links with their hrefs resolved in a document at `base`; the first
/// link that cannot be resolved decides.
pub open spec fn links_resolved(base: Option<Seq<char>>, links: Seq<LinkView>) -> Result<
    Seq<LinkView>,
    ErrorView,
>
    decreases links.len(),
{
    if links.len() == 0 {
        Ok(Seq::empty())
    } else {
        match links_resolved(base, links.drop_last()) {
            Err(e) => Err(e),
            Ok(done) => match link_resolved(base, links.last()) {
                Err(e) => Err(e),
                Ok(l) => Ok(done.push(l)),
            },
        }
    }
}

/// A failure in a prefix is the failure of the whole list.
pub proof fn lemma_links_resolved_prefix(base: Option<Seq<char>>, links: Seq<LinkView>, k: int)
    requires
        0 <= k <= links.len(),
        links_resolved(base, links.take(k)) is Err,
    ensures
        links_resolved(base, links) == links_resolved(base, links.take(k)),
    decreases links.len() - k,
{
    if k < links.len() {
        assert(links.take(k + 1).drop_last() =~= links.take(k));
        lemma_links_resolved_prefix(base, links, k + 1);
    } else {
        assert(links.take(k) =~= links);
    }
}

/// Resolving links changes their hrefs and nothing else: as many links
/// come out as went in, each with the relation and the other fields that
/// it had, so that valid links stay valid.
pub proof fn lemma_links_resolved(base: Option<Seq<char>>, links: Seq<LinkView>)
    ensures
        links_resolved(base, links) matches Ok(done) ==> done.len() == links.len() && forall|
            i: int,
        |
            0 <= i < done.len() ==> link_resolved(base, links[i]) == Ok::<LinkView, ErrorView>(
                #[trigger] done[i],
            ),
        links_resolved(base, links) matches Ok(done) ==> (links_valid(links) ==> links_valid(
            done,
        )),
    decreases links.len(),
{
    if links.len() > 0 {
        let p = links.drop_last();
        lemma_links_resolved(base, p);
        if links_resolved(base, links) is Ok && links_valid(links) {
            let done = links_resolved(base, links)->Ok_0;
            assert forall|i: int| 0 <= i < p.len() implies (#[trigger] p[i]).is_valid() by {
                assert(links[i].is_valid());
            }
            assert forall|i: int| 0 <= i < done.len() implies (#[trigger] done[i]).is_valid() by {
                assert(links[i].is_valid());
                if i < p.len() {
                    assert(done[i] == links_resolved(base, p)->Ok_0[i]);
                }
            }
        }
    }
}

/// Resolves the href of every link in a document whose location is `base`,
/// if it has one. Either every link is resolved, or the first one that
/// cannot be decides and no link is returned.
pub fn resolve_links(links: &Vec<Link>, base: Option<&str>) -> (r: Result<Vec<Link>, Error>)
    ensures
        match r {
            Ok(done) => links_resolved(
                match base {
                    Some(b) => Some(b@),
                    None => None,
                },
                links.deep_view(),
            ) == Ok::<Seq<LinkView>, ErrorView>(done.deep_view()),
            Err(e) => links_resolved(
                match base {
                    Some(b) => Some(b@),
                    None => None,
                },
                links.deep_view(),
            ) == Err::<Seq<LinkView>, ErrorView>(e@),
        },
{
    let ghost ls = links.deep_view();
    let ghost bv: Option<Seq<char>> = match base {
        Some(b) => Some(b@),
        None => None,
    };
    let mut out: Vec<Link> = Vec::new();
    let mut i: usize = 0;
    assert(ls.take(0) =~= Seq::empty());
    assert(out.deep_view() =~= Seq::empty());
    while i < links.len()
        invariant
            i <= links.len(),
            ls == links.deep_view(),
            bv == (match base {
                Some(b) => Some(b@),
                None => None,
            }),
            links_resolved(bv, ls.take(i as int)) == Ok::<Seq<LinkView>, ErrorView>(
                out.deep_view(),
            ),
        decreases links.len() - i,
    {
        proof {
            assert(ls.take(i + 1).drop_last() =~= ls.take(i as int));
        }
        match resolve(base, links[i].href.as_str()) {
            Ok(href) => {
                let mut link = links[i].clone();
                link.href = href;
                let ghost before = out.deep_view();
                let ghost lv = link@;
                out.push(link);
                assert(out.deep_view() =~= before.push(lv));
            },
            Err(e) => {
                proof {
                    lemma_links_resolved_prefix(bv, ls, i + 1);
                }
                return Err(e);
            },
        }
        i += 1;
    }
    proof {
        assert(ls.take(i as int) =~= ls);
    }
    Ok(out)
}

/// A document with links. The operations are the same for every kind.
pub trait Links: Href + Sized {
    /// The links, in order.
    spec fn links_view(&self) -> Seq<LinkView>;

    /// `other` is this document, but for its links.
    spec fn same_but_links(&self, other: &Self) -> bool;

    /// The links, in order.
    fn links(&self) -> (r: &Vec<Link>)
        ensures
            r.deep_view() == self.links_view(),
    ;

    /// The links, to change them. Nothing else of the document changes.
    fn links_mut(&mut self) -> (r: &mut Vec<Link>)
        ensures
            r.deep_view() == old(self).links_view(),
            final(self).links_view() == final(r).deep_view(),
            final(self).href_view() == old(self).href_view(),
            old(self).same_but_links(final(self)),
    ;

    /// The first link with the relation `rel`. A document may have several
    /// links of one relation.
    fn link(&self, rel: &str) -> (r: Option<&Link>)
        ensures
            match r {
                Some(l) => first_with_rel(self.links_view(), rel@) == Some(l@),
                None => first_with_rel(self.links_view(), rel@) is None,
            },
    {
        find_link(self.links(), rel)
    }

    /// The link to the root of the tree, if there is one.
    fn root_link(&self) -> (r: Option<&Link>)
        ensures
            match r {
                Some(l) => first_with_rel(self.links_view(), "root"@) == Some(l@),
                None => first_with_rel(self.links_view(), "root"@) is None,
            },
    {
        find_link(self.links(), "root")
    }

    /// The link to the document itself, if there is one.
    fn self_link(&self) -> (r: Option<&Link>)
        ensures
            match r {
                Some(l) => first_with_rel(self.links_view(), "self"@) == Some(l@),
                None => first_with_rel(self.links_view(), "self"@) is None,
            },
    {
        find_link(self.links(), "self")
    }

    /// The link to the document above, if there is one.
    fn parent_link(&self) -> (r: Option<&Link>)
        ensures
            match r {
                Some(l) => first_with_rel(self.links_view(), "parent"@) == Some(l@),
                None => first_with_rel(self.links_view(), "parent"@) is None,
            },
    {
        find_link(self.links(), "parent")
    }

    /// Every link with the relation `rel`, in order.
    fn links_with<'a>(&'a self, rel: &str) -> (r: Vec<&'a Link>)
        ensures
            r.deep_view() == with_rel(self.links_view(), rel@),
    {
        links_of(self.links(), rel)
    }

    /// Adds a link at the end, whatever links there are.
    fn add_link(&mut self, link: Link)
        ensures
            final(self).links_view() == old(self).links_view().push(link@),
            final(self).href_view() == old(self).href_view(),
            old(self).same_but_links(final(self)),
            links_valid(old(self).links_view()) && link@.is_valid() ==> links_valid(
                final(self).links_view(),
            ),
    {
        let ghost lv = link@;
        let links = self.links_mut();
        let ghost before = links.deep_view();
        links.push(link);
        assert(links.deep_view() =~= before.push(lv));
    }

    /// Sets a link: every link of its relation gives way to it, so that it
    /// is the only one.
    fn set_link(&mut self, link: Link)
        ensures
            final(self).links_view() == with_link(old(self).links_view(), link@),
            final(self).href_view() == old(self).href_view(),
            old(self).same_but_links(final(self)),
            links_valid(old(self).links_view()) && link@.is_valid() ==> links_valid(
                final(self).links_view(),
            ),
    {
        proof {
            lemma_with_link(old(self).links_view(), link@);
        }
        set_link(self.links_mut(), link);
    }

    /// Removes every link with the relation `rel`.
    fn remove_links(&mut self, rel: &str)
        ensures
            final(self).links_view() == without_rel(old(self).links_view(), rel@),
            final(self).href_view() == old(self).href_view(),
            old(self).same_but_links(final(self)),
            links_valid(old(self).links_view()) ==> links_valid(final(self).links_view()),
    {
        proof {
            lemma_without_rel(old(self).links_view(), rel@);
        }
        remove_links(self.links_mut(), rel);
    }

    /// Resolves the href of every link against the location of the
    /// document. Either every link is resolved, or the first that cannot
    /// be decides and the document stays as it is.
    fn make_links_absolute(&mut self) -> (r: Result<(), Error>)
        ensures
            match r {
                Ok(_) => links_resolved(old(self).href_view(), old(self).links_view()) == Ok::<
                    Seq<LinkView>,
                    ErrorView,
                >(final(self).links_view()),
                Err(e) => links_resolved(old(self).href_view(), old(self).links_view()) == Err::<
                    Seq<LinkView>,
                    ErrorView,
                >(e@) && *final(self) == *old(self),
            },
            final(self).href_view() == old(self).href_view(),
            r is Ok ==> old(self).same_but_links(final(self)),
            links_valid(old(self).links_view()) ==> links_valid(final(self).links_view()),
    {
        proof {
            lemma_links_resolved(old(self).href_view(), old(self).links_view());
        }
        let resolved = resolve_links(self.links(), self.href());
        match resolved {
            Ok(links) => {
                let slot = self.links_mut();
                *slot = links;
                Ok(())
            },
            Err(e) => Err(e),
        }
    }
}

impl Links for Item {
    open spec fn links_view(&self) -> Seq<LinkView> {
        self@.links
    }

    open spec fn same_but_links(&self, other: &Self) -> bool {
        other@ == (ItemView { links: other@.links, ..self@ })
    }

    fn links(&self) -> (r: &Vec<Link>) {
        &self.links
    }

    fn links_mut(&mut self) -> (r: &mut Vec<Link>)
        ensures
            final(self)@ == (ItemView { links: final(r).deep_view(), ..old(self)@ }),
    {
        &mut self.links
    }
}

impl Links for Catalog {
    open spec fn links_view(&self) -> Seq<LinkView> {
        self@.links
    }

    open spec fn same_but_links(&self, other: &Self) -> bool {
        other@ == (CatalogView { links: other@.links, ..self@ })
    }

    fn links(&self) -> (r: &Vec<Link>) {
        &self.links
    }

    fn links_mut(&mut self) -> (r: &mut Vec<Link>)
        ensures
            final(self)@ == (CatalogView { links: final(r).deep_view(), ..old(self)@ }),
    {
        &mut self.links
    }
}

impl Links for Collection {
    open spec fn links_view(&self) -> Seq<LinkView> {
        self@.links
    }

    open spec fn same_but_links(&self, other: &Self) -> bool {
        other@ == (CollectionView { links: other@.links, ..self@ })
    }

    fn links(&self) -> (r: &Vec<Link>) {
        &self.links
    }

    fn links_mut(&mut self) -> (r: &mut Vec<Link>)
        ensures
            final(self)@ == (CollectionView { links: final(r).deep_view(), ..old(self)@ }),
    {
        &mut self.links
    }
}

} // verus!
