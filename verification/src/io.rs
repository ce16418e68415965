//! The decisions of reading: where a location is fetched from, and what
//! the document that was fetched remembers.
//!
//! Fetching the bytes is left to the caller. The caller says which
//! transports it has, fetches what `locate` tells it to, and hands the text
//! to `Document::from_text_at` with the location that it was fetched from
//! in the end.

use crate::error::{Error, ErrorView};
use crate::href::{web_only, web_url};
use crate::wire::{parse_url, url_of_text, Url, UrlView};
use vstd::prelude::*;

verus! {

/// Where the bytes of a document are fetched from.
#[derive(Debug, PartialEq)]
pub enum Location {
    /// A path of the file system.
    Path(String),
    /// A URL of the web.
    Url(String),
}

/// The mathematical model of a [`Location`].
pub enum LocationView {
    Path(Seq<char>),
    Url(Seq<char>),
}

impl DeepView for Location {
    type V = LocationView;

    open spec fn deep_view(&self) -> LocationView {
        match self {
            Location::Path(s) => LocationView::Path(s@),
            Location::Url(s) => LocationView::Url(s@),
        }
    }
}

impl View for Location {
    type V = LocationView;

    open spec fn view(&self) -> LocationView {
        self.deep_view()
    }
}

/// Where `href` is fetched from, given what `url` makes of it and whether
/// the caller can fetch from the web: a URL of the web is fetched from the
/// web, or refused where the caller cannot; anything else is a path.
pub open spec fn located(href: Seq<char>, url: Option<UrlView>, network: bool) -> Result<
    LocationView,
    ErrorView,
> {
    match web_url(url) {
        Some(u) => if network {
            Ok(LocationView::Url(u.text))
        } else {
            Err(ErrorView::UnsupportedLocation(href))
        },
        None => Ok(LocationView::Path(href)),
    }
}

/// Decides where `href` is fetched from, given what `url` makes of it.
pub fn locate_with(href: &str, url: Option<Url>, network: bool) -> (r: Result<Location, Error>)
    ensures
        match r {
            Ok(l) => located(href@, url.deep_view(), network) == Ok::<LocationView, ErrorView>(l@),
            Err(e) => located(href@, url.deep_view(), network) == Err::<LocationView, ErrorView>(
                e@,
            ),
        },
{
    match web_only(url) {
        Some(u) => {
            if network {
                Ok(Location::Url(u.text))
            } else {
                Err(Error::UnsupportedLocation(href.to_owned()))
            }
        },
        None => Ok(Location::Path(href.to_owned())),
    }
}

/// Decides where `href` is fetched from. A caller that cannot fetch from
/// the web is told so for a URL of the web, before anything is fetched.
pub fn locate(href: &str, network: bool) -> (r: Result<Location, Error>)
    ensures
        match r {
            Ok(l) => located(href@, url_of_text(href@), network) == Ok::<LocationView, ErrorView>(
                l@,
            ),
            Err(e) => located(href@, url_of_text(href@), network) == Err::<
                LocationView,
                ErrorView,
            >(e@),
        },
        !network && web_url(url_of_text(href@)) is Some ==> (r matches Err(e) && e@
            == ErrorView::UnsupportedLocation(href@)),
{
    locate_with(href, parse_url(href), network)
}

} // verus!
