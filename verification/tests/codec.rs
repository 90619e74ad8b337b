//! The JSON codec against concrete documents.
use mcp_client::json::{parse_json, json_to_bytes, Json};

fn parse_str(s: &str) -> Option<Json> {
    parse_json(&s.as_bytes().to_vec())
}

fn roundtrip(s: &str) -> String {
    let v = parse_str(s).expect("document should parse");
    String::from_utf8(json_to_bytes(&v)).unwrap()
}

#[test]
fn parses_scalars() {
    assert!(matches!(parse_str("null"), Some(Json::Null)));
    assert!(matches!(parse_str("true"), Some(Json::Bool(true))));
    assert!(matches!(parse_str("false"), Some(Json::Bool(false))));
    assert!(parse_str("12").is_some());
    assert!(parse_str("\"hi\"").is_some());
}

#[test]
fn roundtrips_objects_in_order() {
    assert_eq!(roundtrip("{\"b\":1,\"a\":[true,null]}"), "{\"b\":1,\"a\":[true,null]}");
}

#[test]
fn roundtrips_whitespace_away() {
    assert_eq!(roundtrip(" { \"a\" : [ 1 , 2 ] , \"b\" : \"x\" } "), "{\"a\":[1,2],\"b\":\"x\"}");
}

#[test]
fn keeps_number_lexemes() {
    assert_eq!(roundtrip("[-12.50e+3,0,0.5,1E2]"), "[-12.50e+3,0,0.5,1E2]");
}

#[test]
fn keeps_string_escapes() {
    assert_eq!(roundtrip("\"a\\n\\u0041b\""), "\"a\\n\\u0041b\"");
}

#[test]
fn rejects_garbage() {
    assert!(parse_str("not json").is_none());
    assert!(parse_str("").is_none());
    assert!(parse_str("{").is_none());
    assert!(parse_str("[1,2,").is_none());
    assert!(parse_str("{\"a\":}").is_none());
    assert!(parse_str("{\"a\" 1}").is_none());
    assert!(parse_str("[1 2]").is_none());
}

#[test]
fn rejects_trailing_content() {
    assert!(parse_str("01").is_none());
    assert!(parse_str("{} {}").is_none());
    assert!(parse_str("nullx").is_none());
}

#[test]
fn rejects_trailing_commas() {
    assert!(parse_str("[1,]").is_none());
    assert!(parse_str("{\"a\":1,}").is_none());
}

#[test]
fn rejects_bad_numbers() {
    assert!(parse_str("1e").is_none());
    assert!(parse_str("-").is_none());
    assert!(parse_str("1.").is_none());
    assert!(parse_str(".5").is_none());
    assert!(parse_str("+1").is_none());
}

#[test]
fn rejects_bad_strings() {
    assert!(parse_str("\"unterminated").is_none());
    assert!(parse_str("\"bad \\x escape\"").is_none());
    assert!(parse_str("\"\\u12g4\"").is_none());
    assert!(parse_str("\"raw \x07 control\"").is_none());
}

#[test]
fn parses_deep_nesting() {
    let mut s = String::new();
    for _ in 0..200 {
        s.push('[');
    }
    for _ in 0..200 {
        s.push(']');
    }
    assert!(parse_str(&s).is_some());
}

#[test]
fn empty_containers() {
    assert_eq!(roundtrip("{}"), "{}");
    assert_eq!(roundtrip("[]"), "[]");
    assert_eq!(roundtrip("{\"a\":{},\"b\":[]}"), "{\"a\":{},\"b\":[]}");
}

#[test]
fn utf8_content_passes_through() {
    assert_eq!(roundtrip("\"h\u{e9}llo \u{4e16}\u{754c}\""), "\"h\u{e9}llo \u{4e16}\u{754c}\"");
}

#[test]
fn agrees_with_reference_parser_on_acceptance() {
    let cases = [
        "{\"a\":1}",
        "[1,2,3]",
        "\"x\"",
        "-0.5e2",
        "not json",
        "[1,]",
        "{\"a\":}",
        "{} {}",
        "  [ { \"k\" : [true, false] } ] ",
        "01",
        "\"a\\tb\"",
    ];
    for case in cases {
        let ours = parse_str(case).is_some();
        let reference = serde_json::from_str::<serde_json::Value>(case).is_ok();
        assert_eq!(ours, reference, "disagreement on {case:?}");
    }
}

#[test]
fn serializer_escapes_strings() {
    let raw = "a\"b\\c\nd".as_bytes().to_vec();
    let v = mcp_client::rpc::json_string_of(&raw);
    let out = String::from_utf8(json_to_bytes(&v)).unwrap();
    assert_eq!(out, "\"a\\\"b\\\\c\\u000ad\"");
    let back: serde_json::Value = serde_json::from_str(&out).unwrap();
    assert_eq!(back, serde_json::Value::String("a\"b\\c\nd".to_string()));
}
