use sha2::{Digest, Sha256};
use schema_tracker::hasher::{calculate_schema_hash, hash_text, to_hex};
use schema_tracker::json::{JsonMap, JsonValue};

fn record(entries: Vec<(&str, JsonValue)>) -> JsonValue {
    let mut map = JsonMap::new();
    for (key, value) in entries {
        map.insert(key.to_string(), value);
    }
    JsonValue::Object(map)
}

#[test]
fn hex_of_bytes() {
    assert_eq!(to_hex(&[]), "");
    assert_eq!(to_hex(&[0x00]), "00");
    assert_eq!(to_hex(&[0x0f, 0xf0, 0xab, 0x09, 0xff]), "0ff0ab09ff");
    assert_eq!(to_hex(&[0xde, 0xad, 0xbe, 0xef]), "deadbeef");
    let all: Vec<u8> = (0..=255).collect();
    let expected: String = all.iter().map(|b| format!("{:02x}", b)).collect();
    assert_eq!(to_hex(&all), expected);
}

#[test]
fn hash_of_known_texts() {
    assert_eq!(
        hash_text(""),
        "e3b0c44298fc1c149afbf4c8996fb92427ae41e4649b934ca495991b7852b855"
    );
    assert_eq!(
        hash_text("abc"),
        "ba7816bf8f01cfea414140de5dae2223b00361a396177a9cb410ff61f20015ad"
    );
}

#[test]
fn hash_of_a_schema_is_that_of_its_compact_text() {
    let schema = record(vec![
        ("type", JsonValue::String("object".to_string())),
        ("required", JsonValue::Array(vec![JsonValue::String("a".to_string())])),
    ]);
    let text = r#"{"required":["a"],"type":"object"}"#;
    let expected = format!("{:x}", Sha256::digest(text.as_bytes()));
    let hash = calculate_schema_hash(&schema);
    assert_eq!(hash, expected);
    assert_eq!(hash, hash_text(text));
    assert_eq!(hash.len(), 64);
    assert!(hash.chars().all(|c| c.is_ascii_digit() || ('a'..='f').contains(&c)));
}

#[test]
fn hash_is_the_same_for_the_same_content() {
    let first = record(vec![
        ("a", JsonValue::Null),
        ("b", JsonValue::Number(serde_json::Number::from(1u64))),
    ]);
    let second = record(vec![
        ("b", JsonValue::Number(serde_json::Number::from(1u64))),
        ("a", JsonValue::Null),
    ]);
    assert_eq!(calculate_schema_hash(&first), calculate_schema_hash(&first));
    assert_eq!(calculate_schema_hash(&first), calculate_schema_hash(&second));
    assert_eq!(calculate_schema_hash(&first), calculate_schema_hash(&first.clone()));
}

#[test]
fn hash_differs_for_different_content() {
    let first = record(vec![("a", JsonValue::Null)]);
    let second = record(vec![("a", JsonValue::Bool(false))]);
    assert_ne!(calculate_schema_hash(&first), calculate_schema_hash(&second));
    assert_ne!(calculate_schema_hash(&first), hash_text(""));
}

#[test]
fn hash_leaves_out_the_time_of_making() {
    let plain = record(vec![("type", JsonValue::String("object".to_string()))]);
    let early = record(vec![
        ("type", JsonValue::String("object".to_string())),
        ("_generation_timestamp", JsonValue::String("2015-05-15T00:00:00+00:00".to_string())),
    ]);
    let late = record(vec![
        ("_generation_timestamp", JsonValue::String("2026-01-01T00:00:00+00:00".to_string())),
        ("type", JsonValue::String("object".to_string())),
    ]);
    assert_eq!(calculate_schema_hash(&early), calculate_schema_hash(&late));
    assert_eq!(calculate_schema_hash(&early), calculate_schema_hash(&plain));
    assert_eq!(calculate_schema_hash(&early), hash_text(r#"{"type":"object"}"#));
}

#[test]
fn hash_takes_in_every_other_key() {
    let first = record(vec![
        ("_generation_method", JsonValue::String("a".to_string())),
        ("_generation_timestamp", JsonValue::String("t".to_string())),
    ]);
    let second = record(vec![
        ("_generation_method", JsonValue::String("b".to_string())),
        ("_generation_timestamp", JsonValue::String("t".to_string())),
    ]);
    assert_ne!(calculate_schema_hash(&first), calculate_schema_hash(&second));
    assert_eq!(calculate_schema_hash(&first), hash_text(r#"{"_generation_method":"a"}"#));
}

#[test]
fn hash_takes_in_a_time_below_the_top_level() {
    let inner_early = record(vec![("_generation_timestamp", JsonValue::String("t1".to_string()))]);
    let inner_late = record(vec![("_generation_timestamp", JsonValue::String("t2".to_string()))]);
    let first = record(vec![("properties", inner_early)]);
    let second = record(vec![("properties", inner_late)]);
    assert_ne!(calculate_schema_hash(&first), calculate_schema_hash(&second));
    assert_eq!(
        calculate_schema_hash(&first),
        hash_text(r#"{"properties":{"_generation_timestamp":"t1"}}"#)
    );
}

#[test]
fn hash_of_what_is_no_object() {
    assert_eq!(calculate_schema_hash(&JsonValue::Null), hash_text("null"));
    assert_eq!(
        calculate_schema_hash(&JsonValue::Array(vec![JsonValue::String(
            "_generation_timestamp".to_string()
        )])),
        hash_text(r#"["_generation_timestamp"]"#)
    );
}
