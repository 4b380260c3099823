use slack_export::json::Json;

#[test]
fn parse_reads_scalars() {
    assert_eq!(Json::parse("null"), Ok(Json::Null));
    assert_eq!(Json::parse("true"), Ok(Json::Bool(true)));
    assert_eq!(Json::parse("\"hi\""), Ok(Json::Str("hi".to_string())));
    assert_eq!(Json::parse("12"), Ok(Json::Number("12".to_string())));
    assert_eq!(Json::parse("-3.5"), Ok(Json::Number("-3.5".to_string())));
}

#[test]
fn parse_reads_nested_documents() {
    let doc = Json::parse("{\"a\": [1, {\"b\": null}], \"c\": \"x\"}").unwrap();
    let expected = Json::Object(vec![
        (
            "a".to_string(),
            Json::Array(vec![
                Json::Number("1".to_string()),
                Json::Object(vec![("b".to_string(), Json::Null)]),
            ]),
        ),
        ("c".to_string(), Json::Str("x".to_string())),
    ]);
    assert_eq!(doc, expected);
}

#[test]
fn parse_unescapes_strings() {
    assert_eq!(Json::parse("\"a\\n\\u00e9\""), Ok(Json::Str("a\n\u{e9}".to_string())));
}

#[test]
fn parse_reports_what_is_wrong() {
    let message = Json::parse("{\"ok\": tru").unwrap_err();
    assert!(!message.is_empty());
    assert_ne!(message, "{\"ok\": tru");
    assert!(Json::parse("").is_err());
    assert!(Json::parse("{} {}").is_err());
}

#[test]
fn get_finds_members_of_objects_only() {
    let doc = Json::parse("{\"ok\": true, \"n\": 3}").unwrap();
    assert_eq!(doc.get("ok"), Some(&Json::Bool(true)));
    assert_eq!(doc.get("n"), Some(&Json::Number("3".to_string())));
    assert_eq!(doc.get("missing"), None);
    assert_eq!(doc.get(""), None);
    assert_eq!(Json::parse("[1]").unwrap().get("0"), None);
    assert_eq!(Json::Str("ok".to_string()).get("ok"), None);
}

#[test]
fn get_takes_the_first_of_equal_keys() {
    let doc = Json::Object(vec![
        ("k".to_string(), Json::Bool(true)),
        ("k".to_string(), Json::Bool(false)),
    ]);
    assert_eq!(doc.get("k"), Some(&Json::Bool(true)));
}
