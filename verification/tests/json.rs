use ec3api::json::{find_key, Json};

#[test]
fn text_is_read_into_a_document() {
    let j = Json::parse(r#"{"b": [1, 2.5, "x", null, true], "a": {"k": -3}}"#).unwrap();
    let entries = match &j {
        Json::Object(entries) => entries,
        other => panic!("no object: {:?}", other),
    };
    assert_eq!(entries.len(), 2);
    let items = j.get("b").unwrap().as_array().unwrap();
    assert_eq!(items.len(), 5);
    assert_eq!(items[0].as_number(), Some("1"));
    assert_eq!(items[1].as_number(), Some("2.5"));
    assert_eq!(items[2].as_str(), Some("x"));
    assert!(matches!(items[3], Json::Null));
    assert!(matches!(items[4], Json::Bool(true)));
    assert_eq!(j.get("a").unwrap().get("k").unwrap().as_number(), Some("-3"));
    assert!(j.get("c").is_none());
    assert!(items[0].get("k").is_none());
    assert!(items[0].as_str().is_none());
    assert!(items[2].as_number().is_none());
    assert!(items[2].as_array().is_none());
}

#[test]
fn text_that_is_not_json_is_refused() {
    assert!(Json::parse("").is_err());
    assert!(Json::parse("{").is_err());
    assert!(Json::parse("[1,]").is_err());
    assert!(Json::parse("nope").is_err());
    assert!(Json::parse("{} {}").is_err());
}

#[test]
fn document_is_written_on_one_line() {
    let j = Json::Object(vec![
        ("name".to_string(), Json::Str("a \"b\"".to_string())),
        ("list".to_string(), Json::Array(vec![Json::Number("1".to_string()), Json::Null])),
        ("flag".to_string(), Json::Bool(false)),
    ]);
    assert_eq!(j.to_text().unwrap(), r#"{"flag":false,"list":[1,null],"name":"a \"b\""}"#);
    assert_eq!(Json::Null.to_text().unwrap(), "null");
    assert_eq!(Json::Str("x".to_string()).to_text().unwrap(), "\"x\"");
    assert_eq!(Json::Number("12.5".to_string()).to_text().unwrap(), "12.5");
}

#[test]
fn number_that_is_no_json_number_is_not_written() {
    for text in ["not a number", "+1", ".5", "5.", "007", "1e999", "inf", ""] {
        let number = Json::Number(text.to_string());
        assert!(number.to_text().is_err(), "{:?}", text);
        assert!(number.to_pretty_text().is_err(), "{:?}", text);
        let inside = Json::Array(vec![Json::Object(vec![("k".to_string(), Json::Number(text.to_string()))])]);
        assert!(inside.to_text().is_err(), "{:?}", text);
        assert!(inside.to_pretty_text().is_err(), "{:?}", text);
    }
}

#[test]
fn document_is_written_indented() {
    let j = Json::Array(vec![Json::Object(vec![("k".to_string(), Json::Str("v".to_string()))])]);
    assert_eq!(j.to_pretty_text().unwrap(), "[\n  {\n    \"k\": \"v\"\n  }\n]");
}

#[test]
fn written_document_reads_back() {
    let text = r#"{"a":[1,2.5,"x",null,true],"b":{"k":-3}}"#;
    assert_eq!(Json::parse(text).unwrap().to_text().unwrap(), text);
    let pretty = Json::parse(text).unwrap().to_pretty_text().unwrap();
    assert_eq!(Json::parse(&pretty).unwrap().to_text().unwrap(), text);
}

#[test]
fn first_entry_with_a_key_is_found() {
    let entries = vec![
        ("a".to_string(), Json::Number("1".to_string())),
        ("b".to_string(), Json::Number("2".to_string())),
        ("a".to_string(), Json::Number("3".to_string())),
    ];
    assert_eq!(find_key(&entries, "a"), Some(0));
    assert_eq!(find_key(&entries, "b"), Some(1));
    assert_eq!(find_key(&entries, "c"), None);
    assert_eq!(Json::Object(entries).get("a").unwrap().as_number(), Some("1"));
}
