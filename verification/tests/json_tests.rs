use requestx::json::{to_json_string, JsonValue};
use sonic_rs::{JsonContainerTrait, JsonValueTrait};

#[test]
fn scalars() {
    assert_eq!(to_json_string(&JsonValue::Null), "null");
    assert_eq!(to_json_string(&JsonValue::Bool(true)), "true");
    assert_eq!(to_json_string(&JsonValue::Int(-42)), "-42");
    assert_eq!(to_json_string(&JsonValue::Int(i64::MIN)), "-9223372036854775808");
    assert_eq!(to_json_string(&JsonValue::UInt(u64::MAX)), "18446744073709551615");
    assert_eq!(to_json_string(&JsonValue::Float("1.5".to_string())), "1.5");
    assert_eq!(to_json_string(&JsonValue::Str("a\"b\n".to_string())), "\"a\\\"b\\n\"");
}

#[test]
fn containers_keep_order() {
    let v = JsonValue::Object(vec![
        ("z".to_string(), JsonValue::Int(1)),
        ("a".to_string(), JsonValue::Array(vec![JsonValue::Int(1), JsonValue::Null, JsonValue::Array(vec![])])),
        ("m".to_string(), JsonValue::Object(vec![])),
    ]);
    assert_eq!(to_json_string(&v), "{\"z\":1,\"a\":[1,null,[]],\"m\":{}}");
}

#[test]
fn json_text_is_parsed_or_refused_with_a_message() {
    let v = requestx::json::parse_json("{\"a\": [1, true]}").unwrap();
    assert_eq!(v.get("a").unwrap().as_array().unwrap().len(), 2);
    let e = requestx::json::parse_json("{oops").unwrap_err();
    assert!(e.starts_with("JSON parse error: "));
}

#[test]
fn control_characters_in_keys_are_escaped() {
    let v = JsonValue::Object(vec![("a\u{1}\"\n".to_string(), JsonValue::Null)]);
    assert_eq!(to_json_string(&v), "{\"a\\u0001\\\"\\n\":null}");
}
