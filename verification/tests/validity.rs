use stac::asset::assets_are_valid;
use stac::document::items_are_valid;
use stac::error::Error;
use stac::json::{can_stand_beside, has_no_key_of};
use stac::link::links_are_valid;
use stac::provider::providers_are_valid;
use stac::text::parse;
use stac::{
    Asset, Catalog, Collection, Document, Extent, Item, ItemCollection, Json, Link, Links,
    Properties, Provider, TextSet,
};

fn field(key: &str) -> (String, Json) {
    (key.to_string(), Json::Bool(true))
}

#[test]
fn built_and_read_documents_are_valid() {
    assert!(Item::new("an-id").is_valid());
    assert!(Catalog::new("an-id", "d").is_valid());
    assert!(Collection::new("an-id", "d").is_valid());
    assert!(Link::new("a", "b").is_valid());
    assert!(Asset::new("a").is_valid());
    assert!(Provider::new("a").is_valid());
    assert!(Properties::new().is_valid());
    assert!(Extent::new().is_valid());
    assert!(Extent::new().spatial.is_valid());
    assert!(Extent::new().temporal.is_valid());
    assert!(Document::ItemCollection(ItemCollection::new(vec![Item::new("a")])).is_valid());
    let text = r#"{"type": "Catalog", "stac_version": "1.0.0", "stac_extensions": ["a", "a"], "id": "a", "description": "d", "links": [{"href": "a", "rel": "b", "x": 1}], "x": 2}"#;
    assert!(Document::from_text(text).unwrap().is_valid());
}

#[test]
fn member_that_shadows_a_field_makes_invalid() {
    let mut link = Link::new("a", "b");
    link.additional_fields.push(field("x"));
    assert!(link.is_valid());
    link.additional_fields.push(field("href"));
    assert!(!link.is_valid());

    let mut asset = Asset::new("a");
    asset.additional_fields.push(field("roles"));
    assert!(!asset.is_valid());

    let mut provider = Provider::new("a");
    provider.additional_fields.push(field("name"));
    assert!(!provider.is_valid());

    let mut properties = Properties::new();
    properties.additional_fields.push(field("datetime"));
    assert!(!properties.is_valid());

    let mut extent = Extent::new();
    extent.additional_fields.push(field("spatial"));
    assert!(!extent.is_valid());
    let mut extent = Extent::new();
    extent.spatial.additional_fields.push(field("bbox"));
    assert!(!extent.is_valid());
    let mut extent = Extent::new();
    extent.temporal.additional_fields.push(field("interval"));
    assert!(!extent.is_valid());
    assert!(extent.spatial.is_valid());

    for name in ["type", "id", "geometry", "bbox", "properties", "links", "assets", "collection"] {
        let mut item = Item::new("an-id");
        item.additional_fields.push(field(name));
        assert!(!item.is_valid(), "{}", name);
    }
    let mut item = Item::new("an-id");
    item.additional_fields.push(field("description"));
    assert!(item.is_valid());
    let mut catalog = Catalog::new("an-id", "d");
    catalog.additional_fields.push(field("description"));
    assert!(!catalog.is_valid());
    let mut collection = Collection::new("an-id", "d");
    collection.additional_fields.push(field("summaries"));
    assert!(!collection.is_valid());
}

#[test]
fn member_that_occurs_twice_makes_invalid() {
    let mut item = Item::new("an-id");
    item.additional_fields.push(field("x"));
    item.additional_fields.push(field("y"));
    assert!(item.is_valid());
    item.additional_fields.push(field("x"));
    assert!(!item.is_valid());
    assert_eq!(Item::from_json(&item.to_json().unwrap()), Err(Error::DuplicateField));
}

#[test]
fn invalid_part_makes_the_whole_invalid() {
    let mut bad = Link::new("a", "b");
    bad.additional_fields.push(field("rel"));

    let mut item = Item::new("an-id");
    item.links.push(Link::new("a", "b"));
    assert!(item.is_valid());
    item.links.push(Link::new("c", "d"));
    item.links[1].additional_fields.push(field("rel"));
    assert!(!item.is_valid());
    assert!(!links_are_valid(&item.links));
    assert!(links_are_valid(&Vec::new()));
    assert!(!Document::ItemCollection(ItemCollection::new(vec![Item::new("a"), item])).is_valid());

    let mut item = Item::new("an-id");
    item.assets.push(("a".to_string(), Asset::new("a")));
    item.assets.push(("b".to_string(), Asset::new("b")));
    assert!(item.is_valid());
    item.assets.push(("a".to_string(), Asset::new("c")));
    assert!(!item.is_valid());
    assert!(!assets_are_valid(&item.assets));

    let mut item = Item::new("an-id");
    item.properties.additional_fields.push(field("datetime"));
    assert!(!item.is_valid());

    let mut item = Item::new("an-id");
    item.geometry = Some(Json::Bool(true));
    assert!(!item.is_valid());
    item.geometry = Some(parse(r#"{"type": "Point", "coordinates": [1, 2]}"#).unwrap());
    assert!(item.is_valid());
    item.geometry = Some(Json::Null);
    assert!(!item.is_valid());

    let mut item = Item::new("an-id");
    item.kind = "Catalog".to_string();
    assert!(!item.is_valid());
    assert!(!items_are_valid(&vec![item]));

    let mut catalog = Catalog::new("an-id", "d");
    catalog.add_link(bad);
    assert!(!catalog.is_valid());

    let mut collection = Collection::new("an-id", "d");
    collection.providers.push(Provider::new("a"));
    assert!(collection.is_valid());
    collection.providers[0].additional_fields.push(field("url"));
    assert!(!collection.is_valid());
    assert!(!providers_are_valid(&collection.providers));
    let mut collection = Collection::new("an-id", "d");
    collection.extent.temporal.additional_fields.push(field("interval"));
    assert!(!collection.is_valid());
}

#[test]
fn what_is_valid_is_read_back_as_it_was_written() {
    let mut item = Item::new("an-id");
    item.add_link(Link::self_("./item.json"));
    item.add_link(Link::self_("./other.json"));
    item.assets.push(("a".to_string(), Asset::new("a.tif")));
    item.additional_fields.push(field("x"));
    assert!(item.is_valid());
    assert_eq!(Item::from_json(&item.to_json().unwrap()), Ok(item));
}

#[test]
fn add_link_adds_at_the_end() {
    let mut catalog = Catalog::new("an-id", "d");
    catalog.add_link(Link::child("a"));
    catalog.add_link(Link::child("b"));
    catalog.add_link(Link::child("a"));
    let hrefs: Vec<&str> = catalog.links.iter().map(|l| l.href.as_str()).collect();
    assert_eq!(hrefs, vec!["a", "b", "a"]);
    assert_eq!(catalog.links_with("child").len(), 3);
}

#[test]
fn text_set_knows_whether_it_is_one() {
    assert!(TextSet::new().is_set());
    assert!(TextSet::from_texts(vec!["a".to_string(), "a".to_string()]).is_set());
    let mut set = TextSet::new();
    set.add("a");
    set.add("b");
    set.add("a");
    set.remove("b");
    assert!(set.is_set());
}

#[test]
fn members_stand_beside_names_or_not() {
    let names = vec!["a".to_string(), "b".to_string()];
    assert!(can_stand_beside(&vec![field("c"), field("d")], &names));
    assert!(can_stand_beside(&Vec::new(), &names));
    assert!(!can_stand_beside(&vec![field("c"), field("c")], &names));
    assert!(!can_stand_beside(&vec![field("c"), field("b")], &names));
    assert!(has_no_key_of(&vec![field("c"), field("c")], &names));
    assert!(!has_no_key_of(&vec![field("a")], &names));
    assert!(has_no_key_of(&vec![field("a")], &Vec::new()));
}
