//! The JSON serializer, checked against an independent parser.

use mcp_gateway::JsonValue;
use mcp_gateway::json::to_json_string;

#[test]
fn scalars_serialize_exactly() {
    assert_eq!(to_json_string(&JsonValue::Null), "null");
    assert_eq!(to_json_string(&JsonValue::Bool(true)), "true");
    assert_eq!(to_json_string(&JsonValue::Bool(false)), "false");
    assert_eq!(to_json_string(&JsonValue::Int(0)), "0");
    assert_eq!(to_json_string(&JsonValue::Int(42)), "42");
    assert_eq!(to_json_string(&JsonValue::Int(-7)), "-7");
    assert_eq!(to_json_string(&JsonValue::Int(i64::MAX)), "9223372036854775807");
    assert_eq!(to_json_string(&JsonValue::Int(i64::MIN)), "-9223372036854775808");
}

#[test]
fn strings_escape_specials() {
    assert_eq!(to_json_string(&JsonValue::Str("plain".to_string())), "\"plain\"");
    assert_eq!(
        to_json_string(&JsonValue::Str("say \"hi\"\\\n".to_string())),
        "\"say \\\"hi\\\"\\\\\\n\""
    );
    assert_eq!(to_json_string(&JsonValue::Str("tab\there".to_string())), "\"tab\\there\"");
    assert_eq!(to_json_string(&JsonValue::Str("\r".to_string())), "\"\\r\"");
    assert_eq!(to_json_string(&JsonValue::Str("\u{1}".to_string())), "\"\\u0001\"");
    assert_eq!(to_json_string(&JsonValue::Str("\u{1f}".to_string())), "\"\\u001f\"");
}

#[test]
fn composites_serialize_exactly() {
    let v = JsonValue::Obj(vec![
        ("a".to_string(), JsonValue::Arr(vec![JsonValue::Int(1), JsonValue::Int(2)])),
        ("b".to_string(), JsonValue::Obj(vec![("c".to_string(), JsonValue::Null)])),
    ]);
    assert_eq!(to_json_string(&v), "{\"a\":[1,2],\"b\":{\"c\":null}}");
    assert_eq!(to_json_string(&JsonValue::Arr(vec![])), "[]");
    assert_eq!(to_json_string(&JsonValue::Obj(vec![])), "{}");
}

#[test]
fn serialized_text_reparses_with_independent_parser() {
    let v = JsonValue::Obj(vec![
        ("name".to_string(), JsonValue::Str("line\nbreak \"q\"".to_string())),
        ("count".to_string(), JsonValue::Int(-12)),
        (
            "items".to_string(),
            JsonValue::Arr(vec![JsonValue::Bool(false), JsonValue::Null]),
        ),
    ]);
    let text = to_json_string(&v);
    let parsed: serde_json::Value = serde_json::from_str(&text).expect("well-formed JSON");
    assert_eq!(parsed["name"], serde_json::Value::String("line\nbreak \"q\"".to_string()));
    assert_eq!(parsed["count"], serde_json::Value::from(-12));
    assert_eq!(parsed["items"][0], serde_json::Value::Bool(false));
    assert_eq!(parsed["items"][1], serde_json::Value::Null);
}

#[test]
fn get_field_finds_first_match() {
    let v = JsonValue::Obj(vec![
        ("x".to_string(), JsonValue::Int(1)),
        ("y".to_string(), JsonValue::Int(2)),
    ]);
    assert_eq!(v.get_field("x"), Some(&JsonValue::Int(1)));
    assert_eq!(v.get_field("y"), Some(&JsonValue::Int(2)));
    assert_eq!(v.get_field("z"), None);
    assert_eq!(JsonValue::Null.get_field("x"), None);
}

#[test]
fn deep_clone_is_structural() {
    let v = JsonValue::Obj(vec![(
        "k".to_string(),
        JsonValue::Arr(vec![JsonValue::Str("s".to_string()), JsonValue::Int(3)]),
    )]);
    assert_eq!(v.deep_clone(), v);
}

#[test]
fn u64_decimal_text() {
    assert_eq!(mcp_gateway::u64_string(0), "0");
    assert_eq!(mcp_gateway::u64_string(10), "10");
    assert_eq!(mcp_gateway::u64_string(18446744073709551615), "18446744073709551615");
}
