//! Typed object model for SpatioTemporal Asset Catalog (STAC) documents.
//!
//! A STAC document is an item, a catalog or a collection, written as JSON.
//! This library reads the JSON into typed structures, keeps every member
//! that it gives no meaning to, and writes the structures back; it
//! remembers where a document was read from, and resolves the hrefs of its
//! links against that location.
//!
//! Every function is verified against a contract over a mathematical model
//! of its arguments: the `view` of each type. The laws that relate the
//! functions to each other are proved in [`laws`]. The calls into outside
//! crates, whose contracts are taken on trust, are in [`wire`].

pub mod asset;
pub mod assets;
pub mod catalog;
pub mod collection;
pub mod document;
pub mod error;
pub mod extent;
pub mod field;
pub mod href;
pub mod io;
pub mod item;
pub mod json;
pub mod kind;
pub mod laws;
pub mod link;
pub mod links;
pub mod provider;
pub mod text;
pub mod text_set;
pub mod wire;

pub use asset::Asset;
pub use assets::Assets;
pub use catalog::Catalog;
pub use collection::Collection;
pub use document::{Document, ItemCollection};
pub use error::Error;
pub use extent::{Extent, SpatialExtent, TemporalExtent};
pub use href::{href_to_url, Href};
pub use item::{Item, Properties};
pub use json::{Json, Number};
pub use kind::{CATALOG_TYPE, COLLECTION_TYPE, ITEM_TYPE, STAC_VERSION};
pub use link::Link;
pub use links::Links;
pub use provider::Provider;
pub use text_set::{Extensions, TextSet};
