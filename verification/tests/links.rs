use stac::error::Error;
use stac::link::{find_link, remove_links, set_link};
use stac::links::resolve_links;
use stac::text::parse;
use stac::{Catalog, Collection, Href, Item, Json, Link, Links};

fn catalog_with_links() -> Catalog {
    let mut catalog = Catalog::new("an-id", "a description");
    catalog.links.push(Link::root("./root.json"));
    catalog.links.push(Link::child("./a/catalog.json"));
    catalog.links.push(Link::child("./b/catalog.json"));
    catalog.links.push(Link::item("https://example.org/item.json"));
    catalog
}

#[test]
fn link_constructors_set_the_relation() {
    assert_eq!(Link::new("h", "r").rel, "r");
    assert_eq!(Link::new("h", "r").href, "h");
    assert_eq!(Link::root("h").rel, "root");
    assert_eq!(Link::self_("h").rel, "self");
    assert_eq!(Link::parent("h").rel, "parent");
    assert_eq!(Link::child("h").rel, "child");
    assert_eq!(Link::item("h").rel, "item");
    assert_eq!(Link::collection("h").rel, "collection");
    assert_eq!(Link::collection("h"), Link::new("h", "collection"));
    assert_eq!(Link::new("h", "r").media_type, None);
    assert!(Link::new("h", "r").additional_fields.is_empty());
}

#[test]
fn link_is_read_and_written() {
    let j = parse(r#"{"href": "a", "rel": "b", "type": "c", "title": "d", "e": [1]}"#).unwrap();
    let link = Link::from_json(&j).unwrap();
    assert_eq!(link.href, "a");
    assert_eq!(link.rel, "b");
    assert_eq!(link.media_type.as_deref(), Some("c"));
    assert_eq!(link.title.as_deref(), Some("d"));
    assert_eq!(link.additional_fields.len(), 1);
    assert_eq!(link.to_json(), j);
    let j = parse(r#"{"rel": "b", "title": null, "href": "a"}"#).unwrap();
    let link = Link::from_json(&j).unwrap();
    assert_eq!(link, Link::new("a", "b"));
    assert_eq!(link.to_json(), parse(r#"{"href": "a", "rel": "b"}"#).unwrap());
}

#[test]
fn link_faults_are_told_in_order() {
    let read = |text: &str| Link::from_json(&parse(text).unwrap());
    assert_eq!(read("[]"), Err(Error::NotAnObject));
    assert_eq!(read("{}"), Err(Error::MissingField("href".to_string())));
    assert_eq!(read(r#"{"href": 1}"#), Err(Error::InvalidField("href".to_string())));
    assert_eq!(read(r#"{"href": "a"}"#), Err(Error::MissingField("rel".to_string())));
    assert_eq!(read(r#"{"href": "a", "rel": null}"#), Err(Error::InvalidField("rel".to_string())));
    assert_eq!(
        read(r#"{"href": "a", "rel": "b", "type": 1, "title": 2}"#),
        Err(Error::InvalidField("type".to_string()))
    );
    assert_eq!(
        read(r#"{"href": "a", "rel": "b", "title": []}"#),
        Err(Error::InvalidField("title".to_string()))
    );
    let twice = Json::Object(vec![
        ("x".to_string(), Json::Null),
        ("href".to_string(), Json::Null),
        ("x".to_string(), Json::Null),
    ]);
    assert_eq!(Link::from_json(&twice), Err(Error::DuplicateField));
}

#[test]
fn first_link_of_a_relation_is_found() {
    let catalog = catalog_with_links();
    assert_eq!(catalog.link("child").map(|l| l.href.as_str()), Some("./a/catalog.json"));
    assert_eq!(catalog.link("root").map(|l| l.href.as_str()), Some("./root.json"));
    assert_eq!(catalog.link("item").map(|l| l.href.as_str()), Some("https://example.org/item.json"));
    assert_eq!(catalog.link("self"), None);
    assert_eq!(catalog.link("Child"), None);
    assert_eq!(find_link(&catalog.links, "child"), catalog.link("child"));
    assert_eq!(find_link(&Vec::new(), "child"), None);
    assert_eq!(catalog.links().len(), 4);
}

#[test]
fn set_link_leaves_one_link_of_the_relation() {
    let mut catalog = catalog_with_links();
    catalog.set_link(Link::child("./c/catalog.json"));
    let rels: Vec<&str> = catalog.links.iter().map(|l| l.rel.as_str()).collect();
    assert_eq!(rels, vec!["root", "item", "child"]);
    assert_eq!(catalog.link("child").map(|l| l.href.as_str()), Some("./c/catalog.json"));
    catalog.set_link(Link::self_("https://example.org/catalog.json"));
    catalog.set_link(Link::self_("https://example.org/other.json"));
    assert_eq!(catalog.links.iter().filter(|l| l.rel == "self").count(), 1);
    assert_eq!(catalog.link("self").map(|l| l.href.as_str()), Some("https://example.org/other.json"));
    assert_eq!(catalog.id, "an-id");
    assert_eq!(catalog.description, "a description");

    let mut links = vec![Link::root("a"), Link::root("b")];
    set_link(&mut links, Link::root("c"));
    assert_eq!(links, vec![Link::root("c")]);
}

#[test]
fn remove_links_removes_every_link_of_the_relation() {
    let mut catalog = catalog_with_links();
    catalog.remove_links("child");
    let rels: Vec<&str> = catalog.links.iter().map(|l| l.rel.as_str()).collect();
    assert_eq!(rels, vec!["root", "item"]);
    catalog.remove_links("child");
    assert_eq!(catalog.links.len(), 2);
    let mut links = vec![Link::root("a"), Link::item("b"), Link::root("c")];
    remove_links(&mut links, "root");
    assert_eq!(links, vec![Link::item("b")]);
    remove_links(&mut links, "item");
    assert!(links.is_empty());
}

#[test]
fn links_mut_changes_the_links_only() {
    let mut item = Item::new("an-id");
    item.set_href("/data/item.json");
    item.links_mut().push(Link::parent("../catalog.json"));
    assert_eq!(item.links().len(), 1);
    assert_eq!(item.href(), Some("/data/item.json"));
    let mut collection = Collection::new("an-id", "d");
    collection.links_mut().push(Link::parent("../catalog.json"));
    collection.links_mut().clear();
    assert!(collection.links().is_empty());
}

#[test]
fn links_are_made_absolute_against_the_href() {
    let mut catalog = catalog_with_links();
    catalog.set_href("https://example.org/stac/catalog.json");
    assert_eq!(catalog.make_links_absolute(), Ok(()));
    let hrefs: Vec<&str> = catalog.links.iter().map(|l| l.href.as_str()).collect();
    assert_eq!(
        hrefs,
        vec![
            "https://example.org/stac/root.json",
            "https://example.org/stac/a/catalog.json",
            "https://example.org/stac/b/catalog.json",
            "https://example.org/item.json",
        ]
    );
    assert_eq!(catalog.href(), Some("https://example.org/stac/catalog.json"));

    let mut catalog = catalog_with_links();
    catalog.set_href("/data/stac/catalog.json");
    assert_eq!(catalog.make_links_absolute(), Ok(()));
    let hrefs: Vec<&str> = catalog.links.iter().map(|l| l.href.as_str()).collect();
    assert_eq!(
        hrefs,
        vec![
            "/data/stac/root.json",
            "/data/stac/a/catalog.json",
            "/data/stac/b/catalog.json",
            "https://example.org/item.json",
        ]
    );
}

#[test]
fn links_stay_as_they_are_where_one_cannot_be_resolved() {
    let mut catalog = catalog_with_links();
    let before = catalog.links.clone();
    assert_eq!(catalog.make_links_absolute(), Err(Error::NoHref));
    assert_eq!(catalog.links, before);

    let mut item = Item::new("an-id");
    item.links.push(Link::item("https://example.org/item.json"));
    item.links.push(Link::item("/data/item.json"));
    assert_eq!(item.make_links_absolute(), Ok(()));
    assert_eq!(item.links[1].href, "/data/item.json");
}

#[test]
fn resolve_links_keeps_everything_but_the_href() {
    let mut link = Link::new("item.json", "item");
    link.title = Some("a title".to_string());
    link.additional_fields.push(("x".to_string(), Json::Bool(true)));
    let resolved = resolve_links(&vec![link], Some("/data/catalog.json")).unwrap();
    assert_eq!(resolved.len(), 1);
    assert_eq!(resolved[0].href, "/data/item.json");
    assert_eq!(resolved[0].rel, "item");
    assert_eq!(resolved[0].title.as_deref(), Some("a title"));
    assert_eq!(resolved[0].additional_fields.len(), 1);
    assert_eq!(resolve_links(&Vec::new(), None), Ok(Vec::new()));
    assert_eq!(
        resolve_links(&vec![Link::new("/a", "x"), Link::new("b", "y")], None),
        Err(Error::NoHref)
    );
}
