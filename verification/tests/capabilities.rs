use stac::text::parse;
use stac::{Asset, Assets, Catalog, Collection, Document, Item, ItemCollection, Link, Links};

fn item_with_assets() -> Item {
    let mut item = Item::new("an-id");
    item.assets.push(("data".to_string(), Asset::new("data.tif")));
    item.assets.push(("thumbnail".to_string(), Asset::new("thumbnail.png")));
    item
}

#[test]
fn asset_of_a_document_is_found_by_name() {
    let item = item_with_assets();
    assert_eq!(item.asset("data").map(|a| a.href.as_str()), Some("data.tif"));
    assert_eq!(item.asset("thumbnail").map(|a| a.href.as_str()), Some("thumbnail.png"));
    assert_eq!(item.asset("metadata"), None);
    assert_eq!(item.assets().len(), 2);
    assert_eq!(Collection::new("an-id", "d").asset("data"), None);
}

#[test]
fn asset_of_a_document_is_set_and_removed() {
    let mut item = item_with_assets();
    item.set_asset("data", Asset::new("other.tif"));
    assert_eq!(item.assets.len(), 2);
    assert_eq!(item.asset("data").map(|a| a.href.as_str()), Some("other.tif"));
    item.set_asset("metadata", Asset::new("metadata.xml"));
    let names: Vec<&str> = item.assets.iter().map(|(k, _)| k.as_str()).collect();
    assert_eq!(names, vec!["thumbnail", "data", "metadata"]);
    item.remove_asset("thumbnail");
    item.remove_asset("missing");
    let names: Vec<&str> = item.assets.iter().map(|(k, _)| k.as_str()).collect();
    assert_eq!(names, vec!["data", "metadata"]);
    assert_eq!(item.id, "an-id");

    let mut collection = Collection::new("an-id", "d");
    collection.set_asset("readme", Asset::new("README.md"));
    collection.assets_mut().push(("license".to_string(), Asset::new("LICENSE")));
    assert_eq!(collection.assets().len(), 2);
    collection.remove_asset("readme");
    assert_eq!(collection.asset("readme"), None);
    assert_eq!(collection.asset("license").map(|a| a.href.as_str()), Some("LICENSE"));
    assert_eq!(collection.description, "d");
}

#[test]
fn written_assets_of_a_changed_item_are_read_back() {
    let mut item = item_with_assets();
    item.set_asset("data", Asset::new("other.tif"));
    let read = Item::from_json(&item.to_json().unwrap()).unwrap();
    assert_eq!(read, item);
}

#[test]
fn links_of_a_relation_are_found_in_order() {
    let mut catalog = Catalog::new("an-id", "d");
    catalog.links.push(Link::root("./root.json"));
    catalog.links.push(Link::child("./a.json"));
    catalog.links.push(Link::self_("./self.json"));
    catalog.links.push(Link::child("./b.json"));
    catalog.links.push(Link::parent("./parent.json"));
    let children: Vec<&str> = catalog.links_with("child").iter().map(|l| l.href.as_str()).collect();
    assert_eq!(children, vec!["./a.json", "./b.json"]);
    assert!(catalog.links_with("item").is_empty());
    assert_eq!(catalog.root_link().map(|l| l.href.as_str()), Some("./root.json"));
    assert_eq!(catalog.self_link().map(|l| l.href.as_str()), Some("./self.json"));
    assert_eq!(catalog.parent_link().map(|l| l.href.as_str()), Some("./parent.json"));
    let item = Item::new("an-id");
    assert_eq!(item.root_link(), None);
    assert_eq!(item.self_link(), None);
    assert_eq!(item.parent_link(), None);
}

#[test]
fn extensions_of_a_document_are_told() {
    let text = r#"{"type": "Catalog", "stac_version": "1.0.0", "stac_extensions": ["a", "b"], "id": "a", "description": "d", "links": []}"#;
    let document = Document::from_json(&parse(text).unwrap()).unwrap();
    let extensions = document.extensions().unwrap();
    assert!(extensions.contains("a"));
    assert!(extensions.contains("b"));
    assert_eq!(extensions.len(), 2);
    assert!(Document::Item(Item::new("an-id")).extensions().unwrap().is_empty());
    assert!(Document::Collection(Collection::new("a", "d")).extensions().unwrap().is_empty());
    assert_eq!(Document::ItemCollection(ItemCollection::new(Vec::new())).extensions(), None);
}

#[test]
fn extensions_of_a_document_are_written_where_there_are_some() {
    let mut item = Item::new("an-id");
    assert!(item.extensions.add("https://example.org/schema.json"));
    let written = item.to_json().unwrap();
    let read = Item::from_json(&written).unwrap();
    assert!(read.extensions.contains("https://example.org/schema.json"));
    assert_eq!(read, item);
    item.extensions.remove("https://example.org/schema.json");
    assert_eq!(item, Item::new("an-id"));
    assert_eq!(item.to_json(), Item::new("an-id").to_json());
}

#[test]
fn documents_are_copied() {
    let mut item = item_with_assets();
    item.href = Some("/data/item.json".to_string());
    let document = Document::Item(item);
    assert_eq!(document.clone(), document);
    let page = Document::ItemCollection(ItemCollection::new(vec![Item::new("a"), Item::new("b")]));
    assert_eq!(page.clone(), page);
    assert_eq!(page.to_text().unwrap().matches("\"Feature\"").count(), 2);
}
