use kaku::json::{is_json, json_string, parse_json, prettify_json, JsonValue};
use kaku::text::{
    decimal_of, decimal_of_signed, encoded_len, lines, parse_u32, replace_text, split_char,
    split_whitespace, text_at_most, trim,
};

#[test]
fn json_is_read() {
    let value = parse_json("{\"b\":[1,-2,1.5],\"a\":{\"x\":true},\"n\":null,\"s\":\"t\"}").unwrap();
    assert_eq!(value.get_str("s"), Some("t"));
    assert_eq!(value.get("a").unwrap().get_bool("x"), Some(true));
    assert!(matches!(value.get("n"), Some(JsonValue::Null)));
    let list = value.get_array("b").unwrap();
    assert_eq!(list.len(), 3);
    match &list[0] {
        JsonValue::Number(n) => assert_eq!(n.unsigned, Some(1)),
        _ => panic!("expected a number"),
    }
    match &list[1] {
        JsonValue::Number(n) => {
            assert_eq!(n.unsigned, None);
            assert_eq!(n.text, "-2");
        }
        _ => panic!("expected a number"),
    }
    assert!(value.get_object("a").is_some());
    assert!(parse_json("{").is_none());
    assert!(is_json("[1]"));
    assert!(!is_json("[1"));
    assert_eq!(prettify_json("{\"a\":1}"), Some("{\n  \"a\": 1\n}".to_string()));
    assert_eq!(prettify_json("x"), None);
}

#[test]
fn json_fields_are_replaced() {
    let value = parse_json("{\"path\":\"a\",\"q\":1}").unwrap();
    let value = value.replace_field("path", json_string("b"));
    assert_eq!(value.get_str("path"), Some("b"));
    assert_eq!(value.get_u64("q"), Some(1));
}

#[test]
fn texts_are_taken_apart() {
    assert_eq!(trim(" \u{a0}x\t\n"), "x");
    assert_eq!(lines("a\r\nb\n"), vec!["a", "b"]);
    assert_eq!(split_char("a,,b", ','), vec!["a", "", "b"]);
    assert_eq!(split_whitespace("  a \u{3000}b "), vec!["a", "b"]);
    assert_eq!(replace_text("aaa", "aa", "b"), "ba");
    assert_eq!(decimal_of(u128::MAX), format!("{}", u128::MAX));
    assert_eq!(decimal_of_signed(i128::MIN), format!("{}", i128::MIN));
    assert_eq!(parse_u32("4294967295"), Some(u32::MAX));
    assert_eq!(parse_u32("4294967296"), None);
    assert_eq!(encoded_len("aé中😀"), 10);
    assert!(text_at_most("a", "b"));
    assert!(!text_at_most("中", "b"));
}
