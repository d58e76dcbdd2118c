use schema_tracker::json::{JsonMap, JsonValue};
use schema_tracker::serde_bridge::{to_compact_json, to_pretty_json, to_serde_value};

fn sample() -> JsonValue {
    let mut inner = JsonMap::new();
    inner.insert("z".to_string(), JsonValue::Bool(false));
    inner.insert("y".to_string(), JsonValue::Number(serde_json::Number::from(-3i64)));
    let mut map = JsonMap::new();
    map.insert("c".to_string(), JsonValue::Array(vec![
        JsonValue::Number(serde_json::Number::from(1u64)),
        JsonValue::Number(serde_json::Number::from_f64(2.5).unwrap()),
    ]));
    map.insert("a".to_string(), JsonValue::String("x \"quoted\"\n".to_string()));
    map.insert("b".to_string(), JsonValue::Null);
    map.insert("d".to_string(), JsonValue::Object(inner));
    JsonValue::Object(map)
}

#[test]
fn serde_value_holds_the_same_document() {
    let expected: serde_json::Value = serde_json::from_str(
        r#"{"a": "x \"quoted\"\n", "b": null, "c": [1, 2.5], "d": {"y": -3, "z": false}}"#,
    )
    .unwrap();
    assert_eq!(to_serde_value(&sample()), expected);
}

#[test]
fn serde_value_of_each_kind() {
    assert_eq!(to_serde_value(&JsonValue::Null), serde_json::Value::Null);
    assert_eq!(to_serde_value(&JsonValue::Bool(true)), serde_json::Value::Bool(true));
    assert_eq!(
        to_serde_value(&JsonValue::Number(serde_json::Number::from(9u64))),
        serde_json::Value::from(9u64)
    );
    assert_eq!(
        to_serde_value(&JsonValue::String("s".to_string())),
        serde_json::Value::String("s".to_string())
    );
    assert_eq!(
        to_serde_value(&JsonValue::Array(vec![JsonValue::Null, JsonValue::Bool(false)])),
        serde_json::Value::Array(vec![serde_json::Value::Null, serde_json::Value::Bool(false)])
    );
    assert_eq!(
        to_serde_value(&JsonValue::Object(JsonMap::new())),
        serde_json::Value::Object(serde_json::Map::new())
    );
}

#[test]
fn compact_text_is_written_in_key_order() {
    assert_eq!(
        to_compact_json(&sample()),
        Some(r#"{"a":"x \"quoted\"\n","b":null,"c":[1,2.5],"d":{"y":-3,"z":false}}"#.to_string())
    );
    assert_eq!(to_compact_json(&JsonValue::Null), Some("null".to_string()));
    assert_eq!(to_compact_json(&JsonValue::Array(vec![])), Some("[]".to_string()));
    assert_eq!(to_compact_json(&JsonValue::Object(JsonMap::new())), Some("{}".to_string()));
}

#[test]
fn pretty_text_is_indented() {
    let mut map = JsonMap::new();
    map.insert("b".to_string(), JsonValue::Array(vec![JsonValue::Bool(true)]));
    map.insert("a".to_string(), JsonValue::Null);
    assert_eq!(
        to_pretty_json(&JsonValue::Object(map)),
        Some("{\n  \"a\": null,\n  \"b\": [\n    true\n  ]\n}".to_string())
    );
}

#[test]
fn texts_read_back_as_the_same_document() {
    let value = sample();
    let compact: serde_json::Value =
        serde_json::from_str(&to_compact_json(&value).unwrap()).unwrap();
    let pretty: serde_json::Value = serde_json::from_str(&to_pretty_json(&value).unwrap()).unwrap();
    assert_eq!(compact, to_serde_value(&value));
    assert_eq!(pretty, to_serde_value(&value));
}
