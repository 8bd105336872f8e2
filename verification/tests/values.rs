//! Reading element references out of JSON values.

use serde_json::Value;
use thirtyfour::json::{element_id_from_value, element_ids_from_value};

const KEY: &str = "element-6066-11e4-a52e-4f735466cecf";

fn ref_value(id: &str) -> Value {
    let text = format!(
        "{{\"{}\":{}}}",
        KEY,
        serde_json::to_string(&Value::String(id.to_string())).unwrap()
    );
    serde_json::from_str(&text).unwrap()
}

#[test]
fn id_of_reference_object() {
    assert_eq!(element_id_from_value(&ref_value("abc-123")).as_deref(), Some("abc-123"));
}

#[test]
fn id_with_special_characters() {
    for id in ["a\"b\\c", "a\tb\u{1}c", "héllo→"] {
        assert_eq!(element_id_from_value(&ref_value(id)).as_deref(), Some(id));
    }
}

#[test]
fn id_of_other_values() {
    assert_eq!(element_id_from_value(&Value::Null), None);
    assert_eq!(element_id_from_value(&Value::String("abc".to_string())), None);
    let wrong_key: Value = serde_json::from_str("{\"element\":\"abc\"}").unwrap();
    assert_eq!(element_id_from_value(&wrong_key), None);
    let not_a_string: Value =
        serde_json::from_str(&format!("{{\"{}\":42}}", KEY)).unwrap();
    assert_eq!(element_id_from_value(&not_a_string), None);
}

#[test]
fn id_of_object_with_extra_keys() {
    // An element reference is exactly the one-key object; anything else is
    // not taken for one.
    let extra: Value =
        serde_json::from_str(&format!("{{\"{}\":\"abc\",\"z\":1}}", KEY)).unwrap();
    assert_eq!(element_id_from_value(&extra), None);
}

#[test]
fn ids_of_reference_array() {
    let arr = Value::Array(vec![ref_value("one"), ref_value("two"), ref_value("three")]);
    assert_eq!(
        element_ids_from_value(arr),
        Some(vec!["one".to_string(), "two".to_string(), "three".to_string()])
    );
}

#[test]
fn ids_of_empty_array() {
    assert_eq!(element_ids_from_value(Value::Array(vec![])), Some(vec![]));
}

#[test]
fn ids_of_mixed_array() {
    let arr = Value::Array(vec![ref_value("one"), Value::Null]);
    assert_eq!(element_ids_from_value(arr), None);
}

#[test]
fn ids_of_non_array() {
    assert_eq!(element_ids_from_value(ref_value("one")), None);
    assert_eq!(element_ids_from_value(Value::Bool(true)), None);
}
