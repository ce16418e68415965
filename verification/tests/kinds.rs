use stac::error::Error;
use stac::kind::{deserialize_type, read_type, serialize_type};
use stac::text::parse;
use stac::{
    Catalog, Collection, Document, Item, Json, CATALOG_TYPE, COLLECTION_TYPE, ITEM_TYPE,
    STAC_VERSION,
};

const ITEM_SHAPED_CATALOG: &str = r#"{
  "type": "Catalog",
  "stac_version": "1.0.0",
  "id": "an-id",
  "geometry": null,
  "properties": {"datetime": "2020-12-11T22:38:32Z"},
  "links": [],
  "assets": {}
}"#;

#[test]
fn constants_are_those_of_stac() {
    assert_eq!(ITEM_TYPE, "Feature");
    assert_eq!(CATALOG_TYPE, "Catalog");
    assert_eq!(COLLECTION_TYPE, "Collection");
    assert_eq!(STAC_VERSION, "1.0.0");
}

#[test]
fn deserialize_type_accepts_the_expected_type_only() {
    assert_eq!(deserialize_type("Feature".to_string(), "Feature"), Ok("Feature".to_string()));
    assert_eq!(
        deserialize_type("Catalog".to_string(), "Feature"),
        Err(Error::InvalidTypeField {
            expected: "Feature".to_string(),
            actual: "Catalog".to_string()
        })
    );
    assert_eq!(
        deserialize_type("feature".to_string(), "Feature"),
        Err(Error::InvalidTypeField {
            expected: "Feature".to_string(),
            actual: "feature".to_string()
        })
    );
    assert!(deserialize_type(String::new(), "Feature").is_err());
}

#[test]
fn serialize_type_writes_the_expected_type_only() {
    assert_eq!(
        serialize_type(&"Catalog".to_string(), "Catalog"),
        Ok(Json::String("Catalog".to_string()))
    );
    assert_eq!(
        serialize_type(&"Item".to_string(), "Catalog"),
        Err(Error::InvalidTypeField { expected: "Catalog".to_string(), actual: "Item".to_string() })
    );
}

#[test]
fn mismatch_message_names_both_types() {
    let error = serialize_type(&"Item".to_string(), "Catalog").unwrap_err();
    assert_eq!(error.message(), "type field must be 'Catalog', got: 'Item'");
}

#[test]
fn read_type_reads_the_member() {
    let members = match parse(r#"{"type": "Feature"}"#).unwrap() {
        Json::Object(members) => members,
        _ => unreachable!(),
    };
    assert_eq!(read_type(&members, "Feature"), Ok("Feature".to_string()));
    assert!(matches!(read_type(&members, "Catalog"), Err(Error::InvalidTypeField { .. })));
    let empty: Vec<(String, Json)> = Vec::new();
    assert_eq!(read_type(&empty, "Feature"), Err(Error::MissingField("type".to_string())));
    let wrong = vec![("type".to_string(), Json::Bool(true))];
    assert_eq!(read_type(&wrong, "Feature"), Err(Error::InvalidField("type".to_string())));
}

#[test]
fn item_shaped_body_with_catalog_type_is_no_item() {
    let body = parse(ITEM_SHAPED_CATALOG).unwrap();
    assert_eq!(
        Item::from_json(&body),
        Err(Error::InvalidTypeField {
            expected: "Feature".to_string(),
            actual: "Catalog".to_string()
        })
    );
}

#[test]
fn each_kind_refuses_the_types_of_the_others() {
    let item = Item::new("an-id").to_json().unwrap();
    let catalog = Catalog::new("an-id", "d").to_json().unwrap();
    let collection = Collection::new("an-id", "d").to_json().unwrap();
    assert!(matches!(Item::from_json(&catalog), Err(Error::InvalidTypeField { .. })));
    assert!(matches!(Item::from_json(&collection), Err(Error::InvalidTypeField { .. })));
    assert!(matches!(Catalog::from_json(&item), Err(Error::InvalidTypeField { .. })));
    assert_eq!(
        Catalog::from_json(&collection),
        Err(Error::InvalidTypeField {
            expected: "Catalog".to_string(),
            actual: "Collection".to_string()
        })
    );
    assert!(matches!(Collection::from_json(&item), Err(Error::InvalidTypeField { .. })));
    assert!(matches!(Collection::from_json(&catalog), Err(Error::InvalidTypeField { .. })));
}

#[test]
fn changed_type_is_not_written() {
    let mut item = Item::new("an-id");
    item.kind = "Item".to_string();
    assert_eq!(
        item.to_json(),
        Err(Error::InvalidTypeField { expected: "Feature".to_string(), actual: "Item".to_string() })
    );
    let mut catalog = Catalog::new("an-id", "d");
    catalog.kind = "catalog".to_string();
    assert!(matches!(catalog.to_json(), Err(Error::InvalidTypeField { .. })));
    let mut collection = Collection::new("an-id", "d");
    collection.kind = "Catalog".to_string();
    assert!(matches!(collection.to_json(), Err(Error::InvalidTypeField { .. })));
    assert!(matches!(
        Document::Collection(collection).to_text(),
        Err(Error::InvalidTypeField { .. })
    ));
}

#[test]
fn array_is_read_as_a_page_of_items() {
    let text = r#"[
      {"type": "Feature", "stac_version": "1.0.0", "id": "a", "geometry": null, "properties": {"datetime": null}, "links": [], "assets": {}},
      {"type": "Feature", "stac_version": "1.0.0", "id": "b", "geometry": null, "properties": {"datetime": null}, "links": [], "assets": {}}
    ]"#;
    match Document::from_text(text).unwrap() {
        Document::ItemCollection(page) => {
            assert_eq!(page.items.len(), 2);
            assert_eq!(page.items[0].id, "a");
            assert_eq!(page.items[1].id, "b");
            assert_eq!(page.href, None);
        }
        other => panic!("not a page of items: {:?}", other),
    }
    assert!(matches!(Document::from_text("[]"), Ok(Document::ItemCollection(_))));
}

#[test]
fn array_with_a_catalog_is_no_page_of_items() {
    let text = r#"[{"type": "Catalog", "stac_version": "1.0.0", "id": "a", "description": "d", "links": []}]"#;
    assert_eq!(
        Document::from_text(text),
        Err(Error::InvalidTypeField {
            expected: "Feature".to_string(),
            actual: "Catalog".to_string()
        })
    );
}

#[test]
fn object_is_read_as_the_kind_of_its_type() {
    let catalog = r#"{"type": "Catalog", "stac_version": "1.0.0", "id": "a", "description": "d", "links": []}"#;
    assert!(matches!(Document::from_text(catalog), Ok(Document::Catalog(_))));
    let item = r#"{"type": "Feature", "stac_version": "1.0.0", "id": "a", "geometry": null, "properties": {}, "links": [], "assets": {}}"#;
    assert!(matches!(Document::from_text(item), Ok(Document::Item(_))));
    let collection = Collection::new("a", "d").to_json().unwrap();
    assert!(matches!(Document::from_json(&collection), Ok(Document::Collection(_))));
}

#[test]
fn unknown_and_missing_types_are_refused() {
    assert_eq!(
        Document::from_text(r#"{"type": "FeatureCollection", "features": []}"#),
        Err(Error::UnknownType("FeatureCollection".to_string()))
    );
    assert_eq!(
        Document::from_text(r#"{"id": "a"}"#),
        Err(Error::MissingField("type".to_string()))
    );
    assert_eq!(
        Document::from_text(r#"{"type": 1}"#),
        Err(Error::InvalidField("type".to_string()))
    );
    assert_eq!(Document::from_text("1"), Err(Error::NotAnObject));
    assert_eq!(Document::from_text("\"Catalog\""), Err(Error::NotAnObject));
    assert!(matches!(Document::from_text("{"), Err(Error::Syntax(_))));
}

#[test]
fn object_with_a_key_twice_is_refused() {
    let twice = Json::Object(vec![
        ("type".to_string(), Json::String("Catalog".to_string())),
        ("type".to_string(), Json::String("Catalog".to_string())),
    ]);
    assert_eq!(Document::from_json(&twice), Err(Error::DuplicateField));
    assert_eq!(Catalog::from_json(&twice), Err(Error::DuplicateField));
    assert_eq!(Item::from_json(&twice), Err(Error::DuplicateField));
    assert_eq!(Collection::from_json(&twice), Err(Error::DuplicateField));
}
