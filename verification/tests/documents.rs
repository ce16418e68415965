use stac::error::Error;
use stac::text::parse;
use stac::{
    Catalog, Collection, Extent, Item, Json, Link, Number, Properties, Provider, SpatialExtent,
    TemporalExtent,
};

const ITEM: &str = r#"{"type": "Feature", "stac_version": "1.0.0", "id": "an-id", "geometry": {"type": "Point", "coordinates": [1, 2]}, "bbox": [1, 2, 1, 2], "properties": {"datetime": "2020-01-01T00:00:00Z"}, "links": [{"href": "a", "rel": "self"}], "assets": {"data": {"href": "a.tif"}}, "collection": "c"}"#;

const COLLECTION: &str = r#"{"type": "Collection", "stac_version": "1.0.0", "id": "an-id", "description": "d", "extent": {"spatial": {"bbox": [[1, 2, 3, 4]]}, "temporal": {"interval": [["a", null]]}}, "links": []}"#;

fn with(text: &str, key: &str, value: Option<&str>) -> Json {
    let mut members = match parse(text).unwrap() {
        Json::Object(members) => members,
        _ => unreachable!(),
    };
    members.retain(|(k, _)| k != key);
    if let Some(value) = value {
        members.push((key.to_string(), parse(value).unwrap()));
    }
    Json::Object(members)
}

fn number(literal: &str) -> Number {
    Number { literal: literal.to_string() }
}

#[test]
fn item_is_read_field_by_field() {
    let item = Item::from_json(&parse(ITEM).unwrap()).unwrap();
    assert_eq!(item.kind, "Feature");
    assert_eq!(item.version, "1.0.0");
    assert!(item.extensions.is_empty());
    assert_eq!(item.id, "an-id");
    assert_eq!(item.geometry, Some(parse(r#"{"type": "Point", "coordinates": [1, 2]}"#).unwrap()));
    assert_eq!(item.bbox, Some(vec![number("1"), number("2"), number("1"), number("2")]));
    assert_eq!(item.properties.datetime.as_deref(), Some("2020-01-01T00:00:00Z"));
    assert_eq!(item.links, vec![Link::new("a", "self")]);
    assert_eq!(item.assets.len(), 1);
    assert_eq!(item.assets[0].0, "data");
    assert_eq!(item.collection.as_deref(), Some("c"));
    assert!(item.additional_fields.is_empty());
    assert_eq!(item.href, None);
    assert_eq!(item.clone(), item);
}

#[test]
fn new_item_has_the_defaults() {
    let item = Item::new("an-id");
    assert_eq!(item.kind, "Feature");
    assert_eq!(item.version, "1.0.0");
    assert_eq!(item.id, "an-id");
    assert_eq!(item.geometry, None);
    assert_eq!(item.bbox, None);
    assert_eq!(item.properties, Properties::new());
    assert!(item.links.is_empty());
    assert!(item.assets.is_empty());
    assert_eq!(item.collection, None);
    assert_eq!(item.href, None);
}

#[test]
fn item_faults_are_told_in_order() {
    let read = |key: &str, value: Option<&str>| Item::from_json(&with(ITEM, key, value));
    let missing = |key: &str| Err(Error::MissingField(key.to_string()));
    let invalid = |key: &str| Err(Error::InvalidField(key.to_string()));
    assert_eq!(Item::from_json(&Json::Null), Err(Error::NotAnObject));
    assert_eq!(read("type", None), missing("type"));
    assert_eq!(read("type", Some("1")), invalid("type"));
    assert_eq!(read("stac_version", None), missing("stac_version"));
    assert_eq!(read("stac_version", Some("1")), invalid("stac_version"));
    assert_eq!(read("stac_extensions", Some("{}")), invalid("stac_extensions"));
    assert_eq!(read("stac_extensions", Some("[1]")), invalid("stac_extensions"));
    assert_eq!(read("id", None), missing("id"));
    assert_eq!(read("id", Some("1")), invalid("id"));
    assert_eq!(read("geometry", Some("[]")), invalid("geometry"));
    assert_eq!(read("geometry", Some("\"x\"")), invalid("geometry"));
    assert_eq!(read("bbox", Some("{}")), invalid("bbox"));
    assert_eq!(read("bbox", Some("[1, \"2\"]")), invalid("bbox"));
    assert_eq!(read("properties", None), missing("properties"));
    assert_eq!(read("properties", Some("[]")), invalid("properties"));
    assert_eq!(read("properties", Some(r#"{"datetime": 1}"#)), invalid("datetime"));
    assert_eq!(read("links", None), missing("links"));
    assert_eq!(read("links", Some("{}")), invalid("links"));
    assert_eq!(read("links", Some(r#"[{"href": "a"}]"#)), missing("rel"));
    assert_eq!(read("links", Some("[1]")), Err(Error::NotAnObject));
    assert_eq!(read("assets", None), missing("assets"));
    assert_eq!(read("assets", Some("[]")), invalid("assets"));
    assert_eq!(read("assets", Some(r#"{"a": {}}"#)), missing("href"));
    assert_eq!(read("collection", Some("1")), invalid("collection"));
    let first_of_two = with(&with(ITEM, "id", None).to_text(), "links", None);
    assert_eq!(Item::from_json(&first_of_two), missing("id"));
}

trait ToText {
    fn to_text(&self) -> String;
}

impl ToText for Json {
    fn to_text(&self) -> String {
        stac::text::print(self).unwrap()
    }
}

#[test]
fn item_members_that_may_be_absent() {
    let read = |key: &str, value: Option<&str>| Item::from_json(&with(ITEM, key, value)).unwrap();
    assert_eq!(read("geometry", None).geometry, None);
    assert_eq!(read("geometry", Some("null")).geometry, None);
    assert_eq!(read("bbox", None).bbox, None);
    assert_eq!(read("bbox", Some("null")).bbox, None);
    assert_eq!(read("bbox", Some("[]")).bbox, Some(Vec::new()));
    assert_eq!(read("collection", None).collection, None);
    assert_eq!(read("collection", Some("null")).collection, None);
    assert_eq!(read("properties", Some("{}")).properties, Properties::new());
    assert_eq!(read("properties", Some(r#"{"datetime": null}"#)).properties, Properties::new());
    assert_eq!(read("stac_extensions", Some("[]")).extensions.len(), 0);
    assert_eq!(read("stac_extensions", Some(r#"["a", "b", "a"]"#)).extensions.len(), 2);
    assert_eq!(read("vendor", Some("[1]")).additional_fields.len(), 1);
}

#[test]
fn catalog_is_read_field_by_field() {
    let text = r#"{"type": "Catalog", "stac_version": "1.0.0", "stac_extensions": ["x"], "id": "an-id", "description": "d", "links": [{"href": "a", "rel": "child"}], "title": "t"}"#;
    let catalog = Catalog::from_json(&parse(text).unwrap()).unwrap();
    assert_eq!(catalog.kind, "Catalog");
    assert_eq!(catalog.version, "1.0.0");
    assert!(catalog.extensions.contains("x"));
    assert_eq!(catalog.id, "an-id");
    assert_eq!(catalog.description, "d");
    assert_eq!(catalog.links, vec![Link::child("a")]);
    assert_eq!(catalog.additional_fields, vec![("title".to_string(), Json::String("t".to_string()))]);
    assert_eq!(catalog.href, None);
    assert_eq!(catalog.clone(), catalog);
    let new = Catalog::new("an-id", "d");
    assert_eq!((new.kind.as_str(), new.version.as_str()), ("Catalog", "1.0.0"));
    assert_eq!((new.id.as_str(), new.description.as_str()), ("an-id", "d"));
    assert!(new.links.is_empty() && new.extensions.is_empty() && new.additional_fields.is_empty());
}

#[test]
fn catalog_faults_are_told_in_order() {
    let text = r#"{"type": "Catalog", "stac_version": "1.0.0", "id": "an-id", "description": "d", "links": []}"#;
    let read = |key: &str, value: Option<&str>| Catalog::from_json(&with(text, key, value));
    let missing = |key: &str| Err(Error::MissingField(key.to_string()));
    let invalid = |key: &str| Err(Error::InvalidField(key.to_string()));
    assert_eq!(Catalog::from_json(&Json::Array(Vec::new())), Err(Error::NotAnObject));
    assert_eq!(read("type", None), missing("type"));
    assert_eq!(read("stac_version", None), missing("stac_version"));
    assert_eq!(read("stac_extensions", Some("1")), invalid("stac_extensions"));
    assert_eq!(read("id", None), missing("id"));
    assert_eq!(read("description", None), missing("description"));
    assert_eq!(read("description", Some("null")), invalid("description"));
    assert_eq!(read("links", None), missing("links"));
    assert_eq!(read("links", Some(r#"[{"rel": "a"}]"#)), missing("href"));
}

#[test]
fn collection_is_read_field_by_field() {
    let collection = Collection::from_json(&parse(COLLECTION).unwrap()).unwrap();
    assert_eq!(collection.kind, "Collection");
    assert_eq!(collection.id, "an-id");
    assert_eq!(collection.description, "d");
    assert_eq!(
        collection.extent.spatial.bbox,
        vec![vec![number("1"), number("2"), number("3"), number("4")]]
    );
    assert_eq!(collection.extent.temporal.interval, vec![(Some("a".to_string()), None)]);
    assert!(collection.providers.is_empty());
    assert!(collection.summaries.is_empty());
    assert!(collection.assets.is_empty());
    assert_eq!(collection.href, None);
    assert_eq!(collection.clone(), collection);
}

#[test]
fn new_collection_covers_the_whole_world_at_any_time() {
    let collection = Collection::new("an-id", "d");
    assert_eq!(collection.kind, "Collection");
    assert_eq!(collection.version, "1.0.0");
    assert_eq!(collection.extent, Extent::new());
    assert_eq!(
        collection.extent.spatial.bbox,
        vec![vec![number("-180"), number("-90"), number("180"), number("90")]]
    );
    assert_eq!(collection.extent.temporal.interval, vec![(None, None)]);
    assert_eq!(collection.href, None);
}

#[test]
fn collection_faults_are_told_in_order() {
    let read = |key: &str, value: Option<&str>| Collection::from_json(&with(COLLECTION, key, value));
    let missing = |key: &str| Err(Error::MissingField(key.to_string()));
    let invalid = |key: &str| Err(Error::InvalidField(key.to_string()));
    assert_eq!(read("type", Some("\"Feature\"")), Err(Error::InvalidTypeField {
        expected: "Collection".to_string(),
        actual: "Feature".to_string()
    }));
    assert_eq!(read("description", None), missing("description"));
    assert_eq!(read("extent", None), missing("extent"));
    assert_eq!(read("extent", Some("[]")), invalid("extent"));
    assert_eq!(read("extent", Some("{}")), missing("spatial"));
    assert_eq!(read("extent", Some(r#"{"spatial": 1}"#)), invalid("spatial"));
    assert_eq!(read("extent", Some(r#"{"spatial": {}}"#)), missing("bbox"));
    assert_eq!(read("extent", Some(r#"{"spatial": {"bbox": [1]}}"#)), invalid("bbox"));
    assert_eq!(read("extent", Some(r#"{"spatial": {"bbox": [["1"]]}}"#)), invalid("bbox"));
    assert_eq!(read("extent", Some(r#"{"spatial": {"bbox": []}}"#)), missing("temporal"));
    assert_eq!(
        read("extent", Some(r#"{"spatial": {"bbox": []}, "temporal": {}}"#)),
        missing("interval")
    );
    for interval in ["[1]", "[[]]", "[[null]]", "[[null, null, null]]", "[[1, null]]", "[{}]"] {
        let extent = format!(r#"{{"spatial": {{"bbox": []}}, "temporal": {{"interval": {}}}}}"#, interval);
        assert_eq!(read("extent", Some(&extent)), invalid("interval"), "{}", interval);
    }
    assert_eq!(read("providers", Some("{}")), invalid("providers"));
    assert_eq!(read("providers", Some("[{}]")), missing("name"));
    assert_eq!(read("summaries", Some("[]")), invalid("summaries"));
    assert_eq!(read("links", None), missing("links"));
    assert_eq!(read("assets", Some("[]")), invalid("assets"));
    assert_eq!(read("assets", Some(r#"{"a": {"href": 1}}"#)), invalid("href"));
}

#[test]
fn extent_is_read_and_written() {
    let members = match parse(
        r#"{"spatial": {"bbox": [[1, 2, 3, 4], [5.5, 6, 7, 8]], "x": 1}, "temporal": {"interval": [["a", "b"], [null, "c"], ["d", null], [null, null]], "y": 2}, "z": 3}"#,
    )
    .unwrap()
    {
        Json::Object(members) => members,
        _ => unreachable!(),
    };
    let extent = Extent::from_members(&members).unwrap();
    assert_eq!(extent.spatial.bbox.len(), 2);
    assert_eq!(extent.spatial.bbox[1][0], number("5.5"));
    assert_eq!(extent.spatial.additional_fields.len(), 1);
    assert_eq!(
        extent.temporal.interval,
        vec![
            (Some("a".to_string()), Some("b".to_string())),
            (None, Some("c".to_string())),
            (Some("d".to_string()), None),
            (None, None),
        ]
    );
    assert_eq!(extent.temporal.additional_fields.len(), 1);
    assert_eq!(extent.additional_fields.len(), 1);
    assert_eq!(extent.to_members(), members);
    assert_eq!(extent.clone(), extent);
    let spatial = SpatialExtent::from_members(&extent.spatial.to_members()).unwrap();
    assert_eq!(spatial, extent.spatial);
    let temporal = TemporalExtent::from_members(&extent.temporal.to_members()).unwrap();
    assert_eq!(temporal, extent.temporal);
}

#[test]
fn provider_is_read_and_written() {
    let j = parse(
        r#"{"name": "n", "description": "d", "roles": ["host", "producer"], "url": "https://example.org", "x": true}"#,
    )
    .unwrap();
    let provider = Provider::from_json(&j).unwrap();
    assert_eq!(provider.name, "n");
    assert_eq!(provider.description.as_deref(), Some("d"));
    assert!(provider.roles.contains("host"));
    assert_eq!(provider.url.as_deref(), Some("https://example.org"));
    assert_eq!(provider.additional_fields.len(), 1);
    assert_eq!(provider.to_json(), j);
    assert_eq!(provider.clone(), provider);
    assert_eq!(Provider::new("n").to_json(), parse(r#"{"name": "n"}"#).unwrap());
    let read = |text: &str| Provider::from_json(&parse(text).unwrap());
    assert_eq!(read("[]"), Err(Error::NotAnObject));
    assert_eq!(read("{}"), Err(Error::MissingField("name".to_string())));
    assert_eq!(read(r#"{"name": "n", "url": 1}"#), Err(Error::InvalidField("url".to_string())));
    assert_eq!(read(r#"{"name": "n", "roles": 1}"#), Err(Error::InvalidField("roles".to_string())));
    assert_eq!(
        read(r#"{"name": "n", "description": 1}"#),
        Err(Error::InvalidField("description".to_string()))
    );
}

#[test]
fn properties_are_read_and_written() {
    let members = match parse(r#"{"datetime": "2020-01-01T00:00:00Z", "a": 1, "b": [2]}"#).unwrap() {
        Json::Object(members) => members,
        _ => unreachable!(),
    };
    let properties = Properties::from_members(&members).unwrap();
    assert_eq!(properties.datetime.as_deref(), Some("2020-01-01T00:00:00Z"));
    assert_eq!(properties.additional_fields.len(), 2);
    assert_eq!(properties.to_members(), members);
    assert_eq!(
        Properties::new().to_members(),
        vec![("datetime".to_string(), Json::Null)]
    );
    let twice = vec![("a".to_string(), Json::Null), ("a".to_string(), Json::Null)];
    assert_eq!(Properties::from_members(&twice), Err(Error::DuplicateField));
}
