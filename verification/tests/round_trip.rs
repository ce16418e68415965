use stac::text::{parse, print};
use stac::{Catalog, Collection, Document, Item, Json, Link, Number};

const ITEM: &str = r#"{
  "stac_version": "1.0.0",
  "stac_extensions": ["https://stac-extensions.github.io/eo/v1.0.0/schema.json"],
  "type": "Feature",
  "id": "20201211_223832_CS2",
  "bbox": [172.91173669923782, 1.3438851951615003, 172.95469614953714, 1.3690476620161975],
  "geometry": {
    "type": "Polygon",
    "coordinates": [[[172.91173669923782, 1.3438851951615003], [172.95469614953714, 1.3438851951615003], [172.95469614953714, 1.3690476620161975], [172.91173669923782, 1.3438851951615003]]]
  },
  "properties": {"datetime": "2020-12-11T22:38:32.125000Z", "eo:cloud_cover": 1.2, "platform": "cool_sat1"},
  "collection": "simple-collection",
  "links": [
    {"rel": "collection", "href": "./collection.json", "type": "application/json", "title": "Simple Example Collection"},
    {"rel": "root", "href": "./collection.json", "vendor:note": {"nested": [1, 2, 3]}},
    {"rel": "parent", "href": "./collection.json"}
  ],
  "assets": {
    "visual": {"href": "https://example.org/20201211_223832_CS2.tif", "type": "image/tiff; application=geotiff", "title": "3-Band Visual", "roles": ["visual"], "eo:bands": [{"name": "red"}]},
    "thumbnail": {"href": "https://example.org/20201211_223832_CS2.jpg", "description": "A thumbnail"}
  },
  "vendor:top": {"kept": true, "numbers": [1e3, -0.5, 12345678901234567890123]}
}"#;

const CATALOG: &str = r#"{
  "id": "examples",
  "type": "Catalog",
  "title": "Example Catalog",
  "stac_version": "1.0.0",
  "description": "This catalog is a simple demonstration of an example catalog.",
  "links": [
    {"rel": "root", "href": "./catalog.json", "type": "application/json"},
    {"rel": "child", "href": "./extensions-collection/collection.json", "title": "Collection Demonstrating STAC Extensions"},
    {"rel": "child", "href": "./collection-only/collection.json"},
    {"rel": "self", "href": "https://example.org/catalog.json"}
  ]
}"#;

const COLLECTION: &str = r#"{
  "id": "simple-collection",
  "type": "Collection",
  "stac_extensions": ["https://stac-extensions.github.io/view/v1.0.0/schema.json"],
  "stac_version": "1.0.0",
  "description": "A simple collection demonstrating core catalog fields with links to a couple of items",
  "title": "Simple Example Collection",
  "providers": [
    {"name": "Remote Data, Inc", "description": "Producers of awesome spatiotemporal assets", "roles": ["producer", "processor"], "url": "http://remotedata.io", "vendor:id": 7}
  ],
  "extent": {
    "spatial": {"bbox": [[172.91173669923782, 1.3438851951615003, 172.95469614953714, 1.3690476620161975]], "vendor:crs": "EPSG:4326"},
    "temporal": {"interval": [["2020-12-11T22:38:32.125Z", "2020-12-14T18:02:31.437Z"], [null, "2021-01-01T00:00:00Z"]]},
    "vendor:note": "kept"
  },
  "license": "CC-BY-4.0",
  "summaries": {"platform": ["cool_sat1", "cool_sat2"], "gsd": {"minimum": 0.512, "maximum": 0.66}},
  "links": [
    {"rel": "root", "href": "./collection.json"},
    {"rel": "item", "href": "./simple-item.json", "type": "application/geo+json", "title": "Simple Item"}
  ],
  "assets": {"readme": {"href": "./README.md", "roles": ["metadata"]}}
}"#;

fn same_json(a: &Json, b: &Json) -> bool {
    match (a, b) {
        (Json::Object(x), Json::Object(y)) => {
            x.len() == y.len()
                && x.iter().all(|(k, v)| y.iter().any(|(l, w)| k == l && same_json(v, w)))
        }
        (Json::Array(x), Json::Array(y)) => {
            x.len() == y.len() && x.iter().zip(y.iter()).all(|(v, w)| same_json(v, w))
        }
        _ => a == b,
    }
}

fn read_then_write(text: &str) -> (Json, Json) {
    let before = parse(text).unwrap();
    let document = Document::from_json(&before).unwrap();
    let after = document.to_json().unwrap();
    (before, after)
}

#[test]
fn item_is_written_as_it_was_read() {
    let (before, after) = read_then_write(ITEM);
    assert!(same_json(&before, &after));
}

#[test]
fn catalog_is_written_as_it_was_read() {
    let (before, after) = read_then_write(CATALOG);
    assert!(same_json(&before, &after));
}

#[test]
fn collection_is_written_as_it_was_read() {
    let (before, after) = read_then_write(COLLECTION);
    assert!(same_json(&before, &after));
}

#[test]
fn page_of_items_is_written_as_it_was_read() {
    let text = format!("[{}, {}]", ITEM, ITEM);
    let (before, after) = read_then_write(&text);
    assert!(same_json(&before, &after));
}

#[test]
fn same_json_ignores_the_order_of_members_only() {
    let a = parse(r#"{"a": 1, "b": [1, 2]}"#).unwrap();
    let b = parse(r#"{"b": [1, 2], "a": 1}"#).unwrap();
    let c = parse(r#"{"b": [2, 1], "a": 1}"#).unwrap();
    assert!(same_json(&a, &b));
    assert!(!same_json(&a, &c));
    assert_ne!(a, b);
}

#[test]
fn written_text_is_read_as_the_same_document() {
    for text in [ITEM, CATALOG, COLLECTION] {
        let first = Document::from_text(text).unwrap();
        let written = first.to_text().unwrap();
        let second = Document::from_text(&written).unwrap();
        assert_eq!(first, second);
        assert_eq!(second.to_text().unwrap(), written);
    }
}

#[test]
fn write_read_write_of_a_built_item() {
    let mut item = Item::new("an-id");
    item.links.push(Link::new("./catalog.json", "parent"));
    item.properties.datetime = Some("2023-01-01T00:00:00Z".to_string());
    item.bbox = Some(vec![
        Number { literal: "-1.5".to_string() },
        Number { literal: "2".to_string() },
        Number { literal: "3e2".to_string() },
        Number { literal: "4".to_string() },
    ]);
    item.additional_fields.push(("vendor:flag".to_string(), Json::Bool(true)));
    item.href = Some("/somewhere/item.json".to_string());
    let written = item.to_json().unwrap();
    let read = Item::from_json(&written).unwrap();
    item.href = None;
    assert_eq!(read, item);
    assert_eq!(read.to_json().unwrap(), written);
}

#[test]
fn write_read_write_of_a_built_catalog_and_collection() {
    let catalog = Catalog::new("an-id", "a description");
    let written = catalog.to_json().unwrap();
    assert_eq!(Catalog::from_json(&written).unwrap(), catalog);
    assert_eq!(Catalog::from_json(&written).unwrap().to_json().unwrap(), written);

    let collection = Collection::new("an-id", "a description");
    let written = collection.to_json().unwrap();
    assert_eq!(Collection::from_json(&written).unwrap(), collection);
    assert_eq!(print(&written).unwrap(), r#"{"type":"Collection","stac_version":"1.0.0","id":"an-id","description":"a description","extent":{"spatial":{"bbox":[[-180,-90,180,90]]},"temporal":{"interval":[[null,null]]}},"links":[]}"#);
}

#[test]
fn new_item_is_written_with_its_defaults() {
    let item = Item::new("an-id");
    assert_eq!(
        print(&item.to_json().unwrap()).unwrap(),
        r#"{"type":"Feature","stac_version":"1.0.0","id":"an-id","geometry":null,"properties":{"datetime":null},"links":[],"assets":{}}"#
    );
}

#[test]
fn new_catalog_is_written_with_its_defaults() {
    let catalog = Catalog::new("an-id", "a description");
    assert_eq!(
        Document::Catalog(catalog).to_text().unwrap(),
        r#"{"type":"Catalog","stac_version":"1.0.0","id":"an-id","description":"a description","links":[]}"#
    );
}

#[test]
fn foreign_members_are_kept_where_they_were() {
    let item = match Document::from_text(ITEM).unwrap() {
        Document::Item(item) => item,
        other => panic!("not an item: {:?}", other),
    };
    assert_eq!(item.additional_fields.len(), 1);
    assert_eq!(item.additional_fields[0].0, "vendor:top");
    assert_eq!(item.properties.additional_fields.len(), 2);
    assert_eq!(item.properties.additional_fields[0].0, "eo:cloud_cover");
    assert_eq!(
        item.properties.additional_fields[0].1,
        Json::Number(Number { literal: "1.2".to_string() })
    );
    assert_eq!(item.links[1].additional_fields[0].0, "vendor:note");
    assert_eq!(item.assets[0].0, "visual");
    assert_eq!(item.assets[0].1.additional_fields[0].0, "eo:bands");
    assert_eq!(item.assets[1].0, "thumbnail");
    let links: Vec<&str> = item.links.iter().map(|l| l.rel.as_str()).collect();
    assert_eq!(links, vec!["collection", "root", "parent"]);
}

#[test]
fn href_is_not_written() {
    let mut catalog = Catalog::new("an-id", "a description");
    let without = catalog.to_json().unwrap();
    catalog.href = Some("https://example.org/catalog.json".to_string());
    assert_eq!(catalog.to_json().unwrap(), without);
    let text = Document::Catalog(catalog).to_text().unwrap();
    assert!(!text.contains("example.org"));
}
