use schema_tracker::analyzer::{analyze_complete_structure, analyze_field_structure};
use schema_tracker::error::SchemaError;
use schema_tracker::json::{JsonMap, JsonValue};

fn text(s: &str) -> JsonValue {
    JsonValue::String(s.to_string())
}

fn integer(n: u64) -> JsonValue {
    JsonValue::Number(serde_json::Number::from(n))
}

fn object(entries: Vec<(&str, JsonValue)>) -> JsonValue {
    let mut map = JsonMap::new();
    for (key, value) in entries {
        map.insert(key.to_string(), value);
    }
    JsonValue::Object(map)
}

fn described(kind: &str, description: &str) -> JsonValue {
    object(vec![("type", text(kind)), ("description", text(description))])
}

#[test]
fn example_with_string_null_and_array() {
    let example = object(vec![
        ("a", text("x")),
        ("b", JsonValue::Null),
        ("c", JsonValue::Array(vec![integer(1), integer(2)])),
    ]);
    let schema = analyze_complete_structure(&example).unwrap();
    let properties = schema.get("properties").unwrap();
    assert_eq!(properties.get("a").unwrap().get("type"), Some(&text("string")));
    let any_of = properties.get("b").unwrap().get("anyOf").unwrap().as_array().unwrap();
    assert!(any_of.contains(&object(vec![("type", text("null"))])));
    assert_eq!(
        properties.get("c").unwrap(),
        &object(vec![
            ("type", text("array")),
            ("items", described("integer", "Integer field: array_item")),
            ("description", text("Array field: c")),
        ])
    );
    assert_eq!(
        schema.get("required"),
        Some(&JsonValue::Array(vec![text("a"), text("c")]))
    );
}

#[test]
fn schema_of_a_record_in_full() {
    let example = object(vec![("name", text("q")), ("model", JsonValue::Null)]);
    let expected = object(vec![
        ("$schema", text("http://json-schema.org/draft-07/schema#")),
        ("title", text("ConversationState")),
        ("type", text("object")),
        ("description", text("Amazon Q CLI conversation state structure")),
        (
            "properties",
            object(vec![
                (
                    "model",
                    object(vec![
                        (
                            "anyOf",
                            JsonValue::Array(vec![
                                object(vec![("type", text("null"))]),
                                object(vec![(
                                    "description",
                                    text("type undetermined"),
                                )]),
                            ]),
                        ),
                        ("description", text("Optional field: model")),
                    ]),
                ),
                ("name", described("string", "String field: name")),
            ]),
        ),
        ("required", JsonValue::Array(vec![text("name")])),
    ]);
    assert_eq!(analyze_complete_structure(&example), Ok(expected));
}

#[test]
fn root_that_is_no_object_is_refused() {
    assert_eq!(
        analyze_complete_structure(&JsonValue::Array(vec![])),
        Err(SchemaError::RootNotObject)
    );
    assert_eq!(analyze_complete_structure(&JsonValue::Null), Err(SchemaError::RootNotObject));
    assert_eq!(analyze_complete_structure(&text("x")), Err(SchemaError::RootNotObject));
    assert_eq!(analyze_complete_structure(&integer(3)), Err(SchemaError::RootNotObject));
    assert_eq!(
        analyze_complete_structure(&JsonValue::Bool(false)),
        Err(SchemaError::RootNotObject)
    );
}

#[test]
fn record_without_fields() {
    let schema = analyze_complete_structure(&object(vec![])).unwrap();
    assert_eq!(schema.get("type"), Some(&text("object")));
    assert_eq!(schema.get("properties"), Some(&object(vec![])));
    assert_eq!(schema.get("required"), Some(&JsonValue::Array(vec![])));
    assert_eq!(schema.as_object().unwrap().len(), 6);
}

#[test]
fn properties_have_the_keys_of_the_example() {
    let example = object(vec![
        ("zeta", JsonValue::Bool(true)),
        ("alpha", JsonValue::Null),
        ("mid", object(vec![("inner", integer(1))])),
        ("list", JsonValue::Array(vec![])),
    ]);
    let schema = analyze_complete_structure(&example).unwrap();
    let properties = schema.get("properties").unwrap().as_object().unwrap();
    let fields = example.as_object().unwrap();
    assert_eq!(properties.len(), fields.len());
    for i in 0..fields.len() {
        assert_eq!(properties.entry_at(i).unwrap().0, fields.entry_at(i).unwrap().0);
    }
    assert!(!properties.contains_key("inner"));
    assert_eq!(
        schema.get("required"),
        Some(&JsonValue::Array(vec![text("list"), text("mid"), text("zeta")]))
    );
}

#[test]
fn field_of_a_string() {
    assert_eq!(
        analyze_field_structure(&text("hello"), "greeting"),
        Ok(described("string", "String field: greeting"))
    );
}

#[test]
fn field_of_an_integer() {
    assert_eq!(
        analyze_field_structure(&integer(7), "count"),
        Ok(described("integer", "Integer field: count"))
    );
    let negative = JsonValue::Number(serde_json::Number::from(-7i64));
    assert_eq!(
        analyze_field_structure(&negative, "delta"),
        Ok(described("integer", "Integer field: delta"))
    );
    let large = JsonValue::Number(serde_json::Number::from(u64::MAX));
    assert_eq!(
        analyze_field_structure(&large, "big"),
        Ok(described("integer", "Integer field: big"))
    );
}

#[test]
fn field_of_a_number_with_a_fraction() {
    let half = JsonValue::Number(serde_json::Number::from_f64(0.5).unwrap());
    assert_eq!(
        analyze_field_structure(&half, "ratio"),
        Ok(described("number", "Number field: ratio"))
    );
    let whole = JsonValue::Number(serde_json::Number::from_f64(2.0).unwrap());
    assert_eq!(
        analyze_field_structure(&whole, "ratio"),
        Ok(described("number", "Number field: ratio"))
    );
}

#[test]
fn field_of_a_boolean() {
    assert_eq!(
        analyze_field_structure(&JsonValue::Bool(false), "flag"),
        Ok(described("boolean", "Boolean field: flag"))
    );
}

#[test]
fn field_of_an_object_is_read_field_by_field() {
    let nested = object(vec![("k", text("v"))]);
    let fragment = analyze_field_structure(&nested, "o").unwrap();
    assert_eq!(fragment.get("type"), Some(&text("object")));
    assert_eq!(
        fragment.get("properties").unwrap().get("k").unwrap().get("type"),
        Some(&text("string"))
    );
    assert_eq!(fragment.get("required"), Some(&JsonValue::Array(vec![text("k")])));
    assert_eq!(
        fragment,
        object(vec![
            ("type", text("object")),
            ("description", text("Object field: o")),
            ("properties", object(vec![("k", described("string", "String field: k"))])),
            ("required", JsonValue::Array(vec![text("k")])),
        ])
    );
}

#[test]
fn objects_are_read_to_any_depth() {
    let example = object(vec![(
        "outer",
        object(vec![
            ("inner", object(vec![("leaf", integer(1)), ("gone", JsonValue::Null)])),
            ("list", JsonValue::Array(vec![object(vec![("in_list", JsonValue::Bool(true))])])),
        ]),
    )]);
    let schema = analyze_complete_structure(&example).unwrap();
    let outer = schema.get("properties").unwrap().get("outer").unwrap();
    assert_eq!(outer.get("description"), Some(&text("Object field: outer")));
    assert_eq!(
        outer.get("required"),
        Some(&JsonValue::Array(vec![text("inner"), text("list")]))
    );
    let inner = outer.get("properties").unwrap().get("inner").unwrap();
    assert_eq!(inner.get("type"), Some(&text("object")));
    assert_eq!(inner.get("required"), Some(&JsonValue::Array(vec![text("leaf")])));
    assert_eq!(
        inner.get("properties").unwrap().get("leaf"),
        Some(&described("integer", "Integer field: leaf"))
    );
    assert!(inner.get("properties").unwrap().get("gone").unwrap().get("anyOf").is_some());
    let items = outer.get("properties").unwrap().get("list").unwrap().get("items").unwrap();
    assert_eq!(items.get("description"), Some(&text("Object field: array_item")));
    assert_eq!(
        items.get("properties").unwrap().get("in_list"),
        Some(&described("boolean", "Boolean field: in_list"))
    );
}

#[test]
fn field_of_an_object_without_fields() {
    assert_eq!(
        analyze_field_structure(&object(vec![]), "tools"),
        Ok(object(vec![
            ("type", text("object")),
            ("description", text("Object field: tools")),
            ("properties", object(vec![])),
            ("required", JsonValue::Array(vec![])),
        ]))
    );
}

#[test]
fn field_of_null_offers_null() {
    let fragment = analyze_field_structure(&JsonValue::Null, "model").unwrap();
    assert_eq!(fragment.get("description"), Some(&text("Optional field: model")));
    assert_eq!(fragment.get("type"), None);
    let options = fragment.get("anyOf").unwrap().as_array().unwrap();
    assert_eq!(options.len(), 2);
    assert_eq!(options[0], object(vec![("type", text("null"))]));
    assert_eq!(
        options[1],
        object(vec![("description", text("type undetermined"))])
    );
}

#[test]
fn field_of_an_empty_array_has_the_placeholder() {
    let fragment = analyze_field_structure(&JsonValue::Array(vec![]), "history").unwrap();
    assert_eq!(
        fragment,
        object(vec![
            ("type", text("array")),
            (
                "items",
                object(vec![("description", text("Array type - items unknown from empty array"))]),
            ),
            ("description", text("Array field: history")),
        ])
    );
}

#[test]
fn items_follow_the_first_item_alone() {
    let mixed = JsonValue::Array(vec![integer(1), text("two"), JsonValue::Null]);
    let first_only = JsonValue::Array(vec![integer(1)]);
    let of_mixed = analyze_field_structure(&mixed, "values").unwrap();
    let of_first = analyze_field_structure(&first_only, "values").unwrap();
    assert_eq!(of_mixed, of_first);
    assert_eq!(
        of_mixed.get("items"),
        Some(&analyze_field_structure(&integer(1), "array_item").unwrap())
    );
}

#[test]
fn items_of_nested_arrays() {
    let nested = JsonValue::Array(vec![JsonValue::Array(vec![text("x")])]);
    let fragment = analyze_field_structure(&nested, "grid").unwrap();
    let inner = fragment.get("items").unwrap();
    assert_eq!(inner.get("description"), Some(&text("Array field: array_item")));
    assert_eq!(
        inner.get("items"),
        Some(&described("string", "String field: array_item"))
    );
}

#[test]
fn field_name_may_be_empty_or_not_ascii() {
    assert_eq!(
        analyze_field_structure(&text("v"), ""),
        Ok(described("string", "String field: "))
    );
    assert_eq!(
        analyze_field_structure(&JsonValue::Bool(true), "größe"),
        Ok(described("boolean", "Boolean field: größe"))
    );
}
