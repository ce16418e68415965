//! The assets of a document, handled alike for the kinds that have them.

use crate::asset::{
    asset_named, assets_valid, find_asset, remove_asset, set_asset, with_asset, without_asset,
    Asset, AssetsView,
};
use crate::collection::{Collection, CollectionView};
use crate::item::{Item, ItemView};
use vstd::prelude::*;

verus! {

/// A document with assets under their names.
pub trait Assets: Sized {
    /// The assets under their names, in the order in which they are
    /// written.
    spec fn assets_view(&self) -> AssetsView;

    /// `other` is this document, but for its assets.
    spec fn same_but_assets(&self, other: &Self) -> bool;

    /// The assets under their names.
    fn assets(&self) -> (r: &Vec<(String, Asset)>)
        ensures
            r.deep_view() == self.assets_view(),
    ;

    /// The assets, to change them. Nothing else of the document changes.
    fn assets_mut(&mut self) -> (r: &mut Vec<(String, Asset)>)
        ensures
            r.deep_view() == old(self).assets_view(),
            final(self).assets_view() == final(r).deep_view(),
            old(self).same_but_assets(final(self)),
    ;

    /// The asset with the name `key`.
    fn asset(&self, key: &str) -> (r: Option<&Asset>)
        ensures
            match r {
                Some(a) => asset_named(self.assets_view(), key@) == Some(a@),
                None => asset_named(self.assets_view(), key@) is None,
            },
    {
        find_asset(self.assets(), key)
    }

    /// Sets the asset with the name `key`: an asset that had the name
    /// gives way to it.
    fn set_asset(&mut self, key: &str, asset: Asset)
        ensures
            final(self).assets_view() == with_asset(old(self).assets_view(), key@, asset@),
            old(self).same_but_assets(final(self)),
            assets_valid(old(self).assets_view()) && asset@.is_valid() ==> assets_valid(
                final(self).assets_view(),
            ),
    {
        set_asset(self.assets_mut(), key, asset);
    }

    /// Removes the asset with the name `key`.
    fn remove_asset(&mut self, key: &str)
        ensures
            final(self).assets_view() == without_asset(old(self).assets_view(), key@),
            old(self).same_but_assets(final(self)),
            assets_valid(old(self).assets_view()) ==> assets_valid(final(self).assets_view()),
    {
        remove_asset(self.assets_mut(), key);
    }
}

impl Assets for Item {
    open spec fn assets_view(&self) -> AssetsView {
        self@.assets
    }

    open spec fn same_but_assets(&self, other: &Self) -> bool {
        other@ == (ItemView { assets: other@.assets, ..self@ })
    }

    fn assets(&self) -> (r: &Vec<(String, Asset)>) {
        &self.assets
    }

    fn assets_mut(&mut self) -> (r: &mut Vec<(String, Asset)>) {
        &mut self.assets
    }
}

impl Assets for Collection {
    open spec fn assets_view(&self) -> AssetsView {
        self@.assets
    }

    open spec fn same_but_assets(&self, other: &Self) -> bool {
        other@ == (CollectionView { assets: other@.assets, ..self@ })
    }

    fn assets(&self) -> (r: &Vec<(String, Asset)>) {
        &self.assets
    }

    fn assets_mut(&mut self) -> (r: &mut Vec<(String, Asset)>) {
        &mut self.assets
    }
}

} // verus!
