use schema_tracker::json::{JsonMap, JsonValue};
use schema_tracker::key_order::{key_equal, key_less};

fn word(s: &str) -> JsonValue {
    JsonValue::String(s.to_string())
}

#[test]
fn new_map_is_empty() {
    let map = JsonMap::new();
    assert_eq!(map.len(), 0);
    assert!(map.is_empty());
    assert_eq!(map.entry_at(0), None);
    assert_eq!(map.get("a"), None);
    assert!(!map.contains_key("a"));
}

#[test]
fn entries_are_kept_in_key_order() {
    let mut map = JsonMap::new();
    assert_eq!(map.insert("m".to_string(), word("1")), None);
    assert_eq!(map.insert("z".to_string(), word("2")), None);
    assert_eq!(map.insert("a".to_string(), word("3")), None);
    assert_eq!(map.insert("ma".to_string(), word("4")), None);
    assert_eq!(map.len(), 4);
    assert!(!map.is_empty());
    let keys: Vec<&str> = (0..4).map(|i| map.entry_at(i).unwrap().0.as_str()).collect();
    assert_eq!(keys, vec!["a", "m", "ma", "z"]);
    assert_eq!(map.entry_at(0).unwrap().1, &word("3"));
    assert_eq!(map.entry_at(3).unwrap().1, &word("2"));
    assert_eq!(map.entry_at(4), None);
}

#[test]
fn insert_under_a_known_key_replaces_the_value() {
    let mut map = JsonMap::new();
    map.insert("k".to_string(), word("old"));
    map.insert("j".to_string(), word("other"));
    assert_eq!(map.insert("k".to_string(), word("new")), Some(word("old")));
    assert_eq!(map.len(), 2);
    assert_eq!(map.get("k"), Some(&word("new")));
    assert_eq!(map.get("j"), Some(&word("other")));
}

#[test]
fn maps_with_the_same_entries_are_equal() {
    let mut forward = JsonMap::new();
    forward.insert("a".to_string(), JsonValue::Null);
    forward.insert("b".to_string(), JsonValue::Bool(true));
    forward.insert("c".to_string(), word("x"));
    let mut backward = JsonMap::new();
    backward.insert("c".to_string(), word("x"));
    backward.insert("b".to_string(), JsonValue::Bool(true));
    backward.insert("a".to_string(), JsonValue::Null);
    assert_eq!(forward, backward);
    backward.insert("b".to_string(), JsonValue::Bool(false));
    assert_ne!(forward, backward);
}

#[test]
fn get_finds_each_key_and_no_other() {
    let mut map = JsonMap::new();
    map.insert("schema".to_string(), word("s"));
    map.insert("schema_hash".to_string(), word("h"));
    assert_eq!(map.get("schema"), Some(&word("s")));
    assert_eq!(map.get("schema_hash"), Some(&word("h")));
    assert_eq!(map.get("schema_"), None);
    assert_eq!(map.get(""), None);
    assert!(map.contains_key("schema"));
    assert!(!map.contains_key("Schema"));
}

#[test]
fn clone_gives_an_equal_value() {
    let mut inner = JsonMap::new();
    inner.insert("n".to_string(), JsonValue::Number(serde_json::Number::from(3u64)));
    inner.insert("list".to_string(), JsonValue::Array(vec![JsonValue::Null, word("w")]));
    let value = JsonValue::Array(vec![JsonValue::Object(inner.clone()), JsonValue::Bool(true)]);
    assert_eq!(value.clone(), value);
    assert_eq!(inner.clone(), inner);
}

#[test]
fn accessors_tell_the_kinds_apart() {
    let mut map = JsonMap::new();
    map.insert("k".to_string(), word("v"));
    let object = JsonValue::Object(map.clone());
    let array = JsonValue::Array(vec![JsonValue::Null]);
    let string = JsonValue::string("text");
    assert_eq!(string, word("text"));

    assert!(JsonValue::Null.is_null());
    assert!(!object.is_null());
    assert!(!JsonValue::Bool(false).is_null());

    assert_eq!(object.as_object(), Some(&map));
    assert_eq!(array.as_object(), None);
    assert_eq!(array.as_array(), Some(&vec![JsonValue::Null]));
    assert_eq!(object.as_array(), None);
    assert_eq!(string.as_str(), Some("text"));
    assert_eq!(JsonValue::Null.as_str(), None);

    assert_eq!(object.get("k"), Some(&word("v")));
    assert_eq!(object.get("missing"), None);
    assert_eq!(array.get("k"), None);
    assert_eq!(string.get("k"), None);
}

#[test]
fn key_order_is_that_of_strings() {
    let keys = [
        "", "a", "A", "ab", "abc", "abd", "b", "$schema", "_note", "title", "type", "é", "e",
        "z", "zz", "日本", "日", "\u{10348}", "\u{ffff}", "~",
    ];
    for a in keys.iter() {
        for b in keys.iter() {
            assert_eq!(key_less(a, b), a < b, "{:?} < {:?}", a, b);
            assert_eq!(key_equal(a, b), a == b, "{:?} == {:?}", a, b);
        }
    }
}

#[test]
fn key_order_examples() {
    assert!(key_less("schema", "schema_hash"));
    assert!(!key_less("schema_hash", "schema"));
    assert!(!key_less("same", "same"));
    assert!(key_less("title", "type"));
    assert!(key_less("", "a"));
    assert!(!key_less("", ""));
    assert!(key_equal("", ""));
    assert!(!key_equal("a", "ab"));
}

#[test]
fn remove_takes_out_one_entry() {
    let mut map = JsonMap::new();
    map.insert("a".to_string(), word("1"));
    map.insert("b".to_string(), word("2"));
    map.insert("c".to_string(), word("3"));
    assert_eq!(map.remove("b"), Some(word("2")));
    assert_eq!(map.len(), 2);
    assert_eq!(map.get("b"), None);
    assert_eq!(map.get("a"), Some(&word("1")));
    assert_eq!(map.get("c"), Some(&word("3")));
    assert_eq!(map.entry_at(1).unwrap().0, "c");
    assert_eq!(map.remove("b"), None);
    assert_eq!(map.remove("bb"), None);
    assert_eq!(map.remove(""), None);
    assert_eq!(map.len(), 2);
    assert_eq!(map.remove("a"), Some(word("1")));
    assert_eq!(map.remove("c"), Some(word("3")));
    assert!(map.is_empty());
    assert_eq!(map.remove("c"), None);
}
