use stac::error::Error;
use stac::href::{is_absolute, resolve, resolve_with, starts_at_root, web_only};
use stac::io::{locate, locate_with, Location};
use stac::wire::Url;
use stac::{href_to_url, Catalog, Collection, Document, Href, Item, ItemCollection};

const CATALOG: &str =
    r#"{"type": "Catalog", "stac_version": "1.0.0", "id": "a", "description": "d", "links": []}"#;

#[test]
fn built_documents_have_no_href() {
    assert_eq!(Item::new("an-id").href(), None);
    assert_eq!(Catalog::new("an-id", "d").href(), None);
    assert_eq!(Collection::new("an-id", "d").href(), None);
    assert_eq!(ItemCollection::new(vec![Item::new("an-id")]).href(), None);
    assert_eq!(Document::Item(Item::new("an-id")).href(), None);
}

#[test]
fn set_href_is_remembered() {
    let mut item = Item::new("an-id");
    item.set_href("/data/item.json");
    assert_eq!(item.href(), Some("/data/item.json"));
    item.set_href("https://example.org/item.json");
    assert_eq!(item.href(), Some("https://example.org/item.json"));
    assert_eq!(item.id, "an-id");

    let mut catalog = Catalog::new("an-id", "d");
    catalog.set_href("a");
    assert_eq!(catalog.href(), Some("a"));
    let mut collection = Collection::new("an-id", "d");
    collection.set_href("b");
    assert_eq!(collection.href(), Some("b"));
    let mut page = ItemCollection::new(Vec::new());
    page.set_href("c");
    assert_eq!(page.href(), Some("c"));
    let mut document = Document::Catalog(Catalog::new("an-id", "d"));
    document.set_href("d");
    assert_eq!(document.href(), Some("d"));
    assert!(matches!(document, Document::Catalog(_)));
}

#[test]
fn read_documents_have_no_href_until_they_are_told() {
    let document = Document::from_text(CATALOG).unwrap();
    assert_eq!(document.href(), None);
}

#[test]
fn document_read_at_a_location_remembers_it() {
    let document = Document::from_text_at(CATALOG, "https://example.org/catalog.json").unwrap();
    assert_eq!(document.href(), Some("https://example.org/catalog.json"));
    let mut expected = Catalog::new("a", "d");
    expected.href = Some("https://example.org/catalog.json".to_string());
    assert_eq!(document, Document::Catalog(expected));
    assert!(matches!(Document::from_text_at("{", "/x"), Err(Error::Syntax(_))));
    assert_eq!(Document::from_text_at("{}", "/x"), Err(Error::MissingField("type".to_string())));
}

#[test]
fn relative_href_is_resolved_against_a_url() {
    assert_eq!(
        resolve(Some("https://example.org/catalog.json"), "item.json"),
        Ok("https://example.org/item.json".to_string())
    );
    assert_eq!(
        resolve(Some("https://example.org/a/b/catalog.json"), "../c/item.json"),
        Ok("https://example.org/a/c/item.json".to_string())
    );
    assert_eq!(
        resolve(Some("https://example.org/a/"), "./item.json?x=1"),
        Ok("https://example.org/a/item.json?x=1".to_string())
    );
}

#[test]
fn relative_href_without_a_location_is_not_resolved() {
    assert_eq!(resolve(None, "item.json"), Err(Error::NoHref));
    assert_eq!(resolve(None, "./a/item.json"), Err(Error::NoHref));
    assert_eq!(resolve(None, ""), Err(Error::NoHref));
}

#[test]
fn absolute_href_is_kept() {
    assert_eq!(
        resolve(Some("https://example.org/catalog.json"), "http://other.org/item.json"),
        Ok("http://other.org/item.json".to_string())
    );
    assert_eq!(resolve(None, "https://example.org/x"), Ok("https://example.org/x".to_string()));
    assert_eq!(resolve(None, "/data/item.json"), Ok("/data/item.json".to_string()));
    assert_eq!(
        resolve(Some("https://example.org/catalog.json"), "/data/../item.json"),
        Ok("/data/../item.json".to_string())
    );
}

#[test]
fn relative_href_is_resolved_against_a_path() {
    assert_eq!(
        resolve(Some("/data/catalog.json"), "item.json"),
        Ok("/data/item.json".to_string())
    );
    assert_eq!(
        resolve(Some("/data/a/catalog.json"), "../b/item.json"),
        Ok("/data/b/item.json".to_string())
    );
    assert_eq!(
        resolve(Some("/data/a/catalog.json"), "./item.json"),
        Ok("/data/a/item.json".to_string())
    );
    assert_eq!(
        resolve(Some("/data/a/catalog.json"), "b/./c/../item.json"),
        Ok("/data/a/b/item.json".to_string())
    );
    assert_eq!(resolve(Some("/catalog.json"), "item.json"), Ok("/item.json".to_string()));
    assert_eq!(resolve(Some("/data/"), "item.json"), Ok("/data/item.json".to_string()));
    assert_eq!(resolve(Some("/data/"), "sub/"), Ok("/data/sub/".to_string()));
    assert_eq!(resolve(Some("/data/a/b"), "../../../../x"), Ok("/x".to_string()));
    assert_eq!(resolve(Some("/data/a/b"), "a//b"), Ok("/data/a/a//b".to_string()));
    assert_eq!(resolve(Some("/data/catalog.json"), ""), Ok("/data/".to_string()));
    assert_eq!(resolve(Some("/données/catalog.json"), "é.json"), Ok("/données/é.json".to_string()));
    assert_eq!(resolve(Some("/a/b/c"), ".."), Ok("/a".to_string()));
    assert_eq!(resolve(Some("/a/b/c"), "..."), Ok("/a/b/...".to_string()));
}

#[test]
fn location_that_is_none_is_refused() {
    assert_eq!(
        resolve(Some("data/catalog.json"), "item.json"),
        Err(Error::InvalidHref("data/catalog.json".to_string()))
    );
    assert_eq!(resolve(Some(""), "item.json"), Err(Error::InvalidHref(String::new())));
    assert_eq!(
        resolve(Some("mailto:someone@example.org"), "item.json"),
        Err(Error::InvalidHref("item.json".to_string()))
    );
}

#[test]
fn resolve_with_decides_on_what_it_is_told() {
    assert_eq!(resolve_with(None, "x", true, false, None), Ok("x".to_string()));
    assert_eq!(resolve_with(None, "x", false, false, None), Err(Error::NoHref));
    assert_eq!(resolve_with(Some("b"), "x", false, true, Some("j".to_string())), Ok("j".to_string()));
    assert_eq!(
        resolve_with(Some("b"), "x", false, true, None),
        Err(Error::InvalidHref("x".to_string()))
    );
    assert_eq!(
        resolve_with(Some("/b/c"), "x", false, false, Some("j".to_string())),
        Ok("/b/x".to_string())
    );
    assert_eq!(
        resolve_with(Some("b"), "x", false, false, None),
        Err(Error::InvalidHref("b".to_string()))
    );
    assert_eq!(resolve_with(Some("b"), "/x", false, false, None), Ok("/x".to_string()));
}

#[test]
fn absolute_hrefs_are_urls_and_rooted_paths() {
    assert!(is_absolute("https://example.org/catalog.json"));
    assert!(is_absolute("file:///data/catalog.json"));
    assert!(is_absolute("/data/catalog.json"));
    assert!(is_absolute("/"));
    assert!(!is_absolute("data/catalog.json"));
    assert!(!is_absolute("./catalog.json"));
    assert!(!is_absolute(""));
    assert!(starts_at_root("/a"));
    assert!(!starts_at_root("a/"));
    assert!(!starts_at_root(""));
}

#[test]
fn href_to_url_knows_the_urls_of_the_web() {
    assert_eq!(
        href_to_url("HTTP://Example.ORG/a/../catalog.json"),
        Some(Url { text: "http://example.org/catalog.json".to_string(), scheme: "http".to_string() })
    );
    assert_eq!(
        href_to_url("https://example.org"),
        Some(Url { text: "https://example.org/".to_string(), scheme: "https".to_string() })
    );
    assert_eq!(href_to_url("file:///data/catalog.json"), None);
    assert_eq!(href_to_url("/data/catalog.json"), None);
    assert_eq!(href_to_url("catalog.json"), None);
    assert_eq!(href_to_url("htt://example.org"), None);
}

#[test]
fn web_only_keeps_schemes_that_start_with_http() {
    let url = |scheme: &str| Url { text: "x".to_string(), scheme: scheme.to_string() };
    assert_eq!(web_only(Some(url("http"))), Some(url("http")));
    assert_eq!(web_only(Some(url("https"))), Some(url("https")));
    assert_eq!(web_only(Some(url("httpx"))), Some(url("httpx")));
    assert_eq!(web_only(Some(url("htt"))), None);
    assert_eq!(web_only(Some(url("ftp"))), None);
    assert_eq!(web_only(Some(url("shttp"))), None);
    assert_eq!(web_only(Some(url(""))), None);
    assert_eq!(web_only(None), None);
}

#[test]
fn url_is_not_fetched_without_a_network() {
    assert_eq!(
        locate("https://example.org/catalog.json", false),
        Err(Error::UnsupportedLocation("https://example.org/catalog.json".to_string()))
    );
    assert_eq!(
        locate("http://example.org", false),
        Err(Error::UnsupportedLocation("http://example.org".to_string()))
    );
}

#[test]
fn url_is_fetched_with_a_network() {
    assert_eq!(
        locate("https://example.org/catalog.json", true),
        Ok(Location::Url("https://example.org/catalog.json".to_string()))
    );
    assert_eq!(
        locate("HTTPS://example.org", true),
        Ok(Location::Url("https://example.org/".to_string()))
    );
}

#[test]
fn anything_else_is_a_path() {
    for network in [false, true] {
        assert_eq!(
            locate("data/catalog.json", network),
            Ok(Location::Path("data/catalog.json".to_string()))
        );
        assert_eq!(
            locate("/data/catalog.json", network),
            Ok(Location::Path("/data/catalog.json".to_string()))
        );
        assert_eq!(
            locate("file:///data/catalog.json", network),
            Ok(Location::Path("file:///data/catalog.json".to_string()))
        );
    }
}

#[test]
fn locate_with_decides_on_what_it_is_told() {
    let url = Url { text: "https://example.org/".to_string(), scheme: "https".to_string() };
    assert_eq!(
        locate_with("x", Some(url), false),
        Err(Error::UnsupportedLocation("x".to_string()))
    );
    let url = Url { text: "https://example.org/".to_string(), scheme: "https".to_string() };
    assert_eq!(locate_with("x", Some(url), true), Ok(Location::Url("https://example.org/".to_string())));
    let url = Url { text: "ftp://example.org/".to_string(), scheme: "ftp".to_string() };
    assert_eq!(locate_with("x", Some(url), false), Ok(Location::Path("x".to_string())));
    assert_eq!(locate_with("x", None, true), Ok(Location::Path("x".to_string())));
}
