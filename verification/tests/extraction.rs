use mkbsd::JsonValue;
use mkbsd::find_urls_under;
use mkbsd::parse_catalog;
use mkbsd::CatalogError;

fn text(t: &str) -> JsonValue {
    JsonValue::Text(t.to_string())
}

fn obj(entries: Vec<(&str, JsonValue)>) -> JsonValue {
    JsonValue::Object(entries.into_iter().map(|(k, v)| (k.to_string(), v)).collect())
}

fn url_key() -> String {
    "url".to_string()
}

#[test]
fn extraction_completeness_collects_every_url_in_order() {
    let tree = obj(vec![
        ("name", text("catalog")),
        ("url", text("u1")),
        (
            "media",
            JsonValue::Array(vec![
                obj(vec![("url", text("u2")), ("size", JsonValue::Number("3".to_string()))]),
                JsonValue::Null,
                obj(vec![("nested", obj(vec![("url", text("u3"))]))]),
            ]),
        ),
        ("flag", JsonValue::Bool(true)),
    ]);
    let urls = find_urls_under(&tree, &url_key());
    assert_eq!(urls, vec!["u1".to_string(), "u2".to_string(), "u3".to_string()]);
}

#[test]
fn extraction_exclusion_ignores_non_string_values_and_their_subtrees() {
    let tree = obj(vec![
        ("url", JsonValue::Number("7".to_string())),
        ("url", obj(vec![("url", text("hidden"))])),
        ("url", JsonValue::Array(vec![text("also-hidden")])),
    ]);
    let urls = find_urls_under(&tree, &url_key());
    assert!(urls.is_empty());
}

#[test]
fn extraction_of_scalars_and_empty_structures_yields_nothing() {
    assert!(find_urls_under(&JsonValue::Null, &url_key()).is_empty());
    assert!(find_urls_under(&JsonValue::Bool(false), &url_key()).is_empty());
    assert!(find_urls_under(&obj(vec![]), &url_key()).is_empty());
    assert!(find_urls_under(&JsonValue::Array(vec![]), &url_key()).is_empty());
}

#[test]
fn extraction_uses_the_designated_key_only() {
    let tree = obj(vec![("link", text("not-this")), ("url", text("this"))]);
    let urls = find_urls_under(&tree, &url_key());
    assert_eq!(urls, vec!["this".to_string()]);
}

#[test]
fn parse_catalog_then_extract_finds_urls_in_raw_text() {
    let text = "{\"a\":[{\"url\":\"https://cdn.x/col/a1\"},{\"url\":42}],\"url\":\"https://cdn.x/col/a2\"}";
    let tree = parse_catalog(text).expect("well-formed JSON must parse");
    let urls = find_urls_under(&tree, &url_key());
    assert_eq!(
        urls,
        vec!["https://cdn.x/col/a1".to_string(), "https://cdn.x/col/a2".to_string()]
    );
}

#[test]
fn parse_catalog_rejects_malformed_text() {
    let r = parse_catalog("{\"a\": not json");
    assert_eq!(r.unwrap_err(), CatalogError::Malformed);
}
