use mygate::json::{copy_number, Json, JsonNumber};
use mygate::json_codec::{json_from_value, json_to_value, parse_json, render_json};
use mygate::names::NameMap;
use mygate::text::{
    decimal_text, find_from, join, lines, same_text, starts_with, strip_leading, strip_prefix,
    strip_trailing, trim,
};

#[test]
fn values_go_both_ways() {
    let text = r#"{"a":[1,-2,3.5,"x",null,true],"b":{"c":{}},"d":18446744073709551615}"#;
    let value: serde_json::Value = serde_json::from_str(text).unwrap();
    let json = json_from_value(value.clone());
    assert_eq!(json_to_value(&json), value);
    assert_eq!(json_to_value(&parse_json(text).unwrap()), value);
    assert_eq!(render_json(&json), text);
    assert_eq!(json_to_value(&json.clone()), value);
    assert!(parse_json("{").is_none());
}

#[test]
fn later_member_counts() {
    let json = Json::object()
        .with("k", Json::uint(1))
        .with("k", Json::uint(2));
    assert_eq!(json.get("k"), Some(&Json::uint(2)));
    assert_eq!(render_json(&json), r#"{"k":2}"#);
    let again = Json::object()
        .with("a", Json::uint(1))
        .with("b", Json::uint(2))
        .with("a", Json::uint(3))
        .with("a", Json::uint(4));
    assert_eq!(render_json(&again), r#"{"a":4,"b":2}"#);
    assert_eq!(render_json(&Json::Null.with("k", Json::Null)), "null");
}

#[test]
fn members_are_read_by_kind() {
    let json = parse_json(r#"{"s":"t","n":7,"neg":-7,"f":1.5,"a":[1]}"#).unwrap();
    assert_eq!(json.str_field("s"), Some("t"));
    assert_eq!(json.str_field("n"), None);
    assert_eq!(json.str_field_or("missing", "d"), "d");
    assert_eq!(json.uint_field("n"), Some(7));
    assert_eq!(json.uint_field("neg"), None);
    assert_eq!(json.uint_field("f"), None);
    assert_eq!(json.get("a").unwrap().as_array().unwrap().len(), 1);
    assert!(json.as_array().is_none());
    assert!(json.get("zzz").is_none());
    assert!(Json::Bool(true).get("a").is_none());
}

#[test]
fn numbers_are_copied() {
    let n = JsonNumber {
        value: serde_json::Number::from_f64(0.25).unwrap(),
    };
    assert_eq!(copy_number(&Some(n.clone())), Some(n));
    assert_eq!(copy_number(&None), None);
    assert_eq!(JsonNumber::from_u64(9).as_u64(), Some(9));
}

#[test]
fn name_map_keeps_one_value_for_a_name() {
    let mut map: NameMap<u32> = NameMap::new();
    map.insert("a".to_string(), 1);
    map.insert("b".to_string(), 2);
    map.insert("a".to_string(), 3);
    assert_eq!(map.len(), 2);
    assert_eq!(map.get("a"), Some(&3));
    assert_eq!(map.get("c"), None);
    assert!(map.contains_key("b"));
    assert_eq!(map.names(), vec!["a".to_string(), "b".to_string()]);
    map.insert("0".to_string(), 4);
    assert_eq!(
        map.names(),
        vec!["a".to_string(), "b".to_string(), "0".to_string()]
    );
    assert_eq!(map.clone(), map);
}

#[test]
fn texts_are_trimmed_and_cut() {
    assert_eq!(trim(" \t\u{3000}a b\r\n"), "a b");
    assert_eq!(trim("   "), "");
    assert_eq!(strip_prefix("data: x", "data: "), Some("x"));
    assert_eq!(strip_prefix("data:x", "data: "), None);
    assert_eq!(strip_leading("data: data: x", "data: "), "x");
    assert_eq!(strip_leading("x", ""), "x");
    assert_eq!(strip_trailing("http://h//", '/'), "http://h");
    assert!(starts_with(": ping", ":"));
    assert!(same_text("a", "a") && !same_text("a", "b"));
    assert_eq!(
        find_from(&vec!['a', 'b', 'a'], &vec!['a'], 1),
        Some(2)
    );
    assert_eq!(find_from(&vec!['a'], &vec![], 1), Some(1));
    assert_eq!(find_from(&vec!['a'], &vec![], 2), None);
}

#[test]
fn texts_are_split_and_joined() {
    assert_eq!(lines("a\r\nb\n\nc"), vec!["a", "b", "", "c"]);
    assert_eq!(lines("a\n"), vec!["a"]);
    assert!(lines("").is_empty());
    assert_eq!(lines("x\r"), vec!["x\r"]);
    let parts = vec!["a".to_string(), "b".to_string()];
    assert_eq!(join(&parts, "\n"), "a\nb");
    assert_eq!(join(&vec![], "\n"), "");
    assert_eq!(decimal_text(0), "0");
    assert_eq!(decimal_text(40960), "40960");
}

#[test]
fn nested_values_are_read_back_as_deep_as_the_reader_goes() {
    let mut json = Json::Null;
    for _ in 0..127 {
        json = Json::array(vec![json]);
    }
    let text = render_json(&json);
    assert_eq!(parse_json(&text), Some(json.clone()));
    let deeper = Json::object().with("k", json);
    assert_eq!(parse_json(&render_json(&deeper)), None);
}
