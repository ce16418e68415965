use stac::asset::{assets_from_json, assets_to_json, find_asset, remove_asset, set_asset};
use stac::error::Error;
use stac::json::{clone_members, get, has_distinct_keys, is_one_of, rest};
use stac::text::{parse, print};
use stac::{Asset, Extensions, Json, Number, TextSet};

fn members(text: &str) -> Vec<(String, Json)> {
    match parse(text).unwrap() {
        Json::Object(members) => members,
        other => panic!("not an object: {:?}", other),
    }
}

fn number(literal: &str) -> Json {
    Json::Number(Number { literal: literal.to_string() })
}

#[test]
fn text_is_parsed_into_values_in_order() {
    assert_eq!(
        parse(r#"{"b": 1.50, "a": ["x", true, null, {}], "c": -2e-3}"#),
        Ok(Json::Object(vec![
            ("b".to_string(), number("1.50")),
            (
                "a".to_string(),
                Json::Array(vec![
                    Json::String("x".to_string()),
                    Json::Bool(true),
                    Json::Null,
                    Json::Object(Vec::new()),
                ])
            ),
            ("c".to_string(), number("-2e-3")),
        ]))
    );
    assert_eq!(parse(" 12345678901234567890123456789 "), Ok(number("12345678901234567890123456789")));
    assert_eq!(parse(r#""é\n""#), Ok(Json::String("é\n".to_string())));
}

#[test]
fn text_that_is_no_json_is_refused() {
    for text in ["", "{", "[1,]", "{\"a\" 1}", "nul", "1 2", "01", "{\"a\": 1,}"] {
        assert!(matches!(parse(text), Err(Error::Syntax(_))), "{}", text);
    }
    match parse("{") {
        Err(Error::Syntax(message)) => assert!(!message.is_empty()),
        other => panic!("{:?}", other),
    }
}

#[test]
fn values_are_printed_as_compact_text() {
    let value = Json::Object(vec![
        ("b".to_string(), number("1.50")),
        (
            "a".to_string(),
            Json::Array(vec![Json::String("x\"y".to_string()), Json::Bool(false), Json::Null]),
        ),
    ]);
    assert_eq!(print(&value), Ok(r#"{"b":1.50,"a":["x\"y",false,null]}"#.to_string()));
    assert_eq!(print(&Json::Null), Ok("null".to_string()));
    assert_eq!(print(&Json::Array(Vec::new())), Ok("[]".to_string()));
    assert_eq!(print(&Json::String("a".to_string())), Ok("\"a\"".to_string()));
}

#[test]
fn number_that_is_none_is_not_printed() {
    assert_eq!(print(&number("abc")), Err(Error::InvalidNumber));
    assert_eq!(print(&number("")), Err(Error::InvalidNumber));
    assert_eq!(print(&number("1 2")), Err(Error::InvalidNumber));
    assert_eq!(print(&Json::Array(vec![number("1"), number("x")])), Err(Error::InvalidNumber));
    assert_eq!(
        print(&Json::Object(vec![("a".to_string(), number("--1"))])),
        Err(Error::InvalidNumber)
    );
}

#[test]
fn printed_text_is_parsed_as_the_same_value() {
    let text = r#"{"a":[1,2.5,{"b":null}],"c":"d","e":{"f":[[],{}]},"g":-0.0}"#;
    let value = parse(text).unwrap();
    assert_eq!(print(&value).unwrap(), text);
    assert_eq!(parse(&print(&value).unwrap()), Ok(value));
}

#[test]
fn members_are_found_by_key() {
    let ms = members(r#"{"a": 1, "b": "x", "c": null}"#);
    assert_eq!(get(&ms, "a"), Some(&number("1")));
    assert_eq!(get(&ms, "b"), Some(&Json::String("x".to_string())));
    assert_eq!(get(&ms, "c"), Some(&Json::Null));
    assert_eq!(get(&ms, "d"), None);
    assert_eq!(get(&ms, "A"), None);
    assert_eq!(get(&Vec::new(), "a"), None);
    let twice = vec![("a".to_string(), Json::Bool(true)), ("a".to_string(), Json::Bool(false))];
    assert_eq!(get(&twice, "a"), Some(&Json::Bool(true)));
}

#[test]
fn keys_are_distinct_or_not() {
    assert!(has_distinct_keys(&members(r#"{"a": 1, "b": 2, "c": 3}"#)));
    assert!(has_distinct_keys(&Vec::new()));
    assert!(has_distinct_keys(&vec![("a".to_string(), Json::Null)]));
    assert!(!has_distinct_keys(&vec![
        ("a".to_string(), Json::Null),
        ("b".to_string(), Json::Null),
        ("a".to_string(), Json::Bool(true)),
    ]));
}

#[test]
fn rest_drops_the_names_and_keeps_the_order() {
    let ms = members(r#"{"a": 1, "b": 2, "c": 3, "d": 4}"#);
    let names = vec!["c".to_string(), "a".to_string(), "z".to_string()];
    assert_eq!(rest(&ms, &names), members(r#"{"b": 2, "d": 4}"#));
    assert_eq!(rest(&ms, &Vec::new()), ms);
    assert_eq!(rest(&Vec::new(), &names), Vec::new());
    assert!(is_one_of(&names, &"a".to_string()));
    assert!(!is_one_of(&names, &"b".to_string()));
    assert_eq!(clone_members(&ms), ms);
}

#[test]
fn json_is_copied() {
    let value = parse(r#"{"a": [1, {"b": [true, "c", null]}], "d": 2.5}"#).unwrap();
    assert_eq!(value.clone(), value);
}

#[test]
fn text_set_adds_each_text_once() {
    let mut set = TextSet::new();
    assert!(set.is_empty());
    assert!(set.add("a"));
    assert!(set.add("b"));
    assert!(!set.add("a"));
    assert_eq!(set.len(), 2);
    assert!(set.contains("a"));
    assert!(set.contains("b"));
    assert!(!set.contains("c"));
    assert_eq!(set.texts(), &vec!["a".to_string(), "b".to_string()]);
    assert_eq!(set.clone(), set);
}

#[test]
fn text_set_removes_a_text() {
    let mut set = TextSet::from_texts(vec!["a".to_string(), "b".to_string(), "c".to_string()]);
    assert!(set.remove("b"));
    assert!(!set.remove("b"));
    assert!(!set.contains("b"));
    assert_eq!(set.texts(), &vec!["a".to_string(), "c".to_string()]);
    assert!(set.remove("a"));
    assert!(set.remove("c"));
    assert!(set.is_empty());
    assert!(!set.remove("a"));
}

#[test]
fn text_set_of_a_list_keeps_first_occurrences() {
    let set = TextSet::from_texts(vec![
        "b".to_string(),
        "a".to_string(),
        "b".to_string(),
        "c".to_string(),
        "a".to_string(),
    ]);
    assert_eq!(set.texts(), &vec!["b".to_string(), "a".to_string(), "c".to_string()]);
    assert_eq!(set.to_json(), parse(r#"["b", "a", "c"]"#).unwrap());
    assert_eq!(TextSet::from_texts(Vec::new()), TextSet::new());
}

#[test]
fn extensions_are_a_set_of_uris() {
    let mut extensions: Extensions = Extensions::new();
    let uri = "https://stac-extensions.github.io/eo/v1.0.0/schema.json";
    assert!(extensions.add(uri));
    assert!(!extensions.add(uri));
    assert!(extensions.contains(uri));
    assert!(extensions.remove(uri));
    assert!(!extensions.contains(uri));
}

#[test]
fn asset_is_read_and_written() {
    let j = parse(
        r#"{"href": "a.tif", "title": "t", "description": "d", "type": "image/tiff", "roles": ["data", "visual"], "x": 1}"#,
    )
    .unwrap();
    let asset = Asset::from_json(&j).unwrap();
    assert_eq!(asset.href, "a.tif");
    assert_eq!(asset.title.as_deref(), Some("t"));
    assert_eq!(asset.description.as_deref(), Some("d"));
    assert_eq!(asset.media_type.as_deref(), Some("image/tiff"));
    assert!(asset.roles.contains("data"));
    assert!(asset.roles.contains("visual"));
    assert_eq!(asset.roles.len(), 2);
    assert_eq!(asset.additional_fields, vec![("x".to_string(), number("1"))]);
    assert_eq!(asset.to_json(), j);
    assert_eq!(Asset::new("a.tif").to_json(), parse(r#"{"href": "a.tif"}"#).unwrap());
    assert_eq!(asset.clone(), asset);
}

#[test]
fn asset_faults_are_told_in_order() {
    let read = |text: &str| Asset::from_json(&parse(text).unwrap());
    assert_eq!(read("1"), Err(Error::NotAnObject));
    assert_eq!(read("{}"), Err(Error::MissingField("href".to_string())));
    assert_eq!(read(r#"{"href": []}"#), Err(Error::InvalidField("href".to_string())));
    assert_eq!(read(r#"{"href": "a", "title": 1}"#), Err(Error::InvalidField("title".to_string())));
    assert_eq!(
        read(r#"{"href": "a", "description": 1}"#),
        Err(Error::InvalidField("description".to_string()))
    );
    assert_eq!(read(r#"{"href": "a", "type": 1}"#), Err(Error::InvalidField("type".to_string())));
    assert_eq!(read(r#"{"href": "a", "roles": "x"}"#), Err(Error::InvalidField("roles".to_string())));
    assert_eq!(
        read(r#"{"href": "a", "roles": ["x", 1]}"#),
        Err(Error::InvalidField("roles".to_string()))
    );
    assert_eq!(
        read(r#"{"href": "a", "roles": null}"#),
        Err(Error::InvalidField("roles".to_string()))
    );
    assert_eq!(read(r#"{"href": "a", "roles": ["x", "x"]}"#).unwrap().roles.len(), 1);
}

#[test]
fn assets_are_found_set_and_removed_by_name() {
    let mut assets = vec![
        ("a".to_string(), Asset::new("a.tif")),
        ("b".to_string(), Asset::new("b.tif")),
    ];
    assert_eq!(find_asset(&assets, "b").map(|a| a.href.as_str()), Some("b.tif"));
    assert_eq!(find_asset(&assets, "c"), None);
    set_asset(&mut assets, "a", Asset::new("other.tif"));
    let names: Vec<&str> = assets.iter().map(|(k, _)| k.as_str()).collect();
    assert_eq!(names, vec!["b", "a"]);
    assert_eq!(find_asset(&assets, "a").map(|a| a.href.as_str()), Some("other.tif"));
    set_asset(&mut assets, "c", Asset::new("c.tif"));
    assert_eq!(assets.len(), 3);
    remove_asset(&mut assets, "b");
    remove_asset(&mut assets, "z");
    let names: Vec<&str> = assets.iter().map(|(k, _)| k.as_str()).collect();
    assert_eq!(names, vec!["a", "c"]);
}

#[test]
fn assets_object_is_read_and_written() {
    let ms = members(r#"{"b": {"href": "b.tif"}, "a": {"href": "a.tif", "roles": ["data"]}}"#);
    let assets = assets_from_json(&ms).unwrap();
    assert_eq!(assets.len(), 2);
    assert_eq!(assets[0].0, "b");
    assert_eq!(assets[1].0, "a");
    assert_eq!(assets_to_json(&assets), ms);
    assert_eq!(
        assets_from_json(&members(r#"{"a": {"href": "a.tif"}, "b": {}}"#)),
        Err(Error::MissingField("href".to_string()))
    );
    assert_eq!(assets_from_json(&members(r#"{"a": 1}"#)), Err(Error::NotAnObject));
    let twice = vec![
        ("a".to_string(), Asset::new("a.tif").to_json()),
        ("a".to_string(), Asset::new("b.tif").to_json()),
    ];
    assert_eq!(assets_from_json(&twice), Err(Error::DuplicateField));
}

#[test]
fn every_error_has_its_message() {
    let text = |s: &str| s.to_string();
    assert_eq!(
        Error::InvalidTypeField { expected: text("Feature"), actual: text("Catalog") }.message(),
        "type field must be 'Feature', got: 'Catalog'"
    );
    assert_eq!(Error::UnknownType(text("x")).message(), "unknown type: 'x'");
    assert_eq!(Error::MissingField(text("id")).message(), "missing field: 'id'");
    assert_eq!(Error::InvalidField(text("id")).message(), "invalid field: 'id'");
    assert_eq!(Error::DuplicateField.message(), "an object holds a key twice");
    assert_eq!(Error::NotAnObject.message(), "not a JSON object");
    assert_eq!(Error::Syntax(text("oops")).message(), "invalid JSON: oops");
    assert_eq!(Error::InvalidNumber.message(), "a number is not a JSON number");
    assert_eq!(Error::NoHref.message(), "the document has no href to resolve against");
    assert_eq!(Error::InvalidHref(text("x")).message(), "invalid href: 'x'");
    assert_eq!(Error::UnsupportedLocation(text("x")).message(), "unsupported location: 'x'");
    assert_eq!(
        Error::Io { location: text("/a"), message: text("not found") }.message(),
        "cannot read '/a': not found"
    );
}
