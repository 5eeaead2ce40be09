use fetcher::json::{read_document, Document, Json, Member};

fn parsed(text: &str) -> Json {
    match read_document(&Some(text.to_string())) {
        Document::Parsed(json) => json,
        other => panic!("unexpected {:?}", other),
    }
}

#[test]
fn reads_an_object() {
    let json = parsed("{\"name\": \"foo\", \"n\": 1.5}");
    assert_eq!(json.member("name").and_then(|v| v.text()).map(|s| s.as_str()), Some("foo"));
    assert!(matches!(json.member("n"), Some(Json::Number(n)) if n == "1.5"));
    assert!(json.member("other").is_none());
}

#[test]
fn reads_every_kind_of_value() {
    let json = parsed("[null, true, false, 7, -3, \"x\", [], {}]");
    let items = json.items().expect("an array");
    assert_eq!(items.len(), 8);
    assert!(matches!(items[0], Json::Null));
    assert!(matches!(items[1], Json::Bool(true)));
    assert!(matches!(items[2], Json::Bool(false)));
    assert!(matches!(&items[3], Json::Number(n) if n == "7"));
    assert!(matches!(&items[4], Json::Number(n) if n == "-3"));
    assert!(matches!(&items[5], Json::Text(s) if s == "x"));
    assert!(matches!(&items[6], Json::Array(v) if v.is_empty()));
    assert!(matches!(&items[7], Json::Object(v) if v.is_empty()));
}

#[test]
fn reads_nested_values() {
    let json = parsed("{\"a\": {\"b\": [\"c\"]}}");
    let inner = json.member("a").expect("a").member("b").expect("b");
    let items = inner.items().expect("an array");
    assert_eq!(items.len(), 1);
    assert_eq!(items[0].text().map(|s| s.as_str()), Some("c"));
}

#[test]
fn unescapes_strings() {
    let json = parsed("\"a\\n\\u0041\\\"\"");
    assert_eq!(json.text().map(|s| s.as_str()), Some("a\nA\""));
}

#[test]
fn text_is_not_handed_back_as_it_came() {
    let json = parsed("  \"foo\"  ");
    assert_eq!(json.text().map(|s| s.as_str()), Some("foo"));
}

#[test]
fn missing_text_is_a_missing_document() {
    assert!(matches!(read_document(&None), Document::Missing));
}

#[test]
fn text_that_is_not_json_is_malformed() {
    for text in ["", "{", "{\"a\":}", "[1,]", "nul", "{} {}", "'a'"] {
        assert!(
            matches!(read_document(&Some(text.to_string())), Document::Malformed),
            "{:?}",
            text
        );
    }
}

#[test]
fn a_repeated_key_keeps_its_last_value() {
    let json = parsed("{\"a\": 1, \"a\": 2}");
    assert!(matches!(json.member("a"), Some(Json::Number(n)) if n == "2"));
}

#[test]
fn member_takes_the_last_of_equal_keys() {
    let json = Json::Object(vec![
        Member { key: "k".to_string(), value: Json::Bool(true) },
        Member { key: "other".to_string(), value: Json::Null },
        Member { key: "k".to_string(), value: Json::Bool(false) },
    ]);
    assert!(matches!(json.member("k"), Some(Json::Bool(false))));
    assert!(matches!(json.member("other"), Some(Json::Null)));
    assert!(json.member("absent").is_none());
}

#[test]
fn member_of_what_is_no_object_is_none() {
    assert!(Json::Null.member("a").is_none());
    assert!(Json::Array(vec![Json::Text("a".to_string())]).member("a").is_none());
    assert!(Json::Text("a".to_string()).member("a").is_none());
}

#[test]
fn text_and_items_of_other_values_are_none() {
    assert!(Json::Null.text().is_none());
    assert!(Json::Number("1".to_string()).text().is_none());
    assert!(Json::Text("a".to_string()).items().is_none());
    assert!(Json::Object(vec![]).items().is_none());
}
