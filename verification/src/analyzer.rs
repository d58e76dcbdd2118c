//! The structural analyzer: a JSON Schema read off one example value.
//!
//! The schema describes what the example shows and no more, as deep as the
//! example goes: an object within the example is read field by field as the
//! example itself is. Of an array only the first item is looked at, and a
//! field counts as required because its example value is not `null`: both are
//! best guesses, not declared facts.

use vstd::prelude::*;
use crate::error::SchemaError;
use crate::json::{
    field_of, items_model, keys_of, lemma_lookup_index, lookup, JsonMap, JsonModel, JsonValue,
};
use crate::key_order::{key_lt, lemma_key_lt_differs_at, lemma_sorted_from_adjacent, strictly_sorted};

verus! {

/// A fragment of a `type` and a `description`, the latter made of a label and
/// the field's name.
pub open spec fn described(kind: Seq<char>, label: Seq<char>, field_name: Seq<char>) -> JsonModel {
    JsonModel::Object(
        seq![
            ("description"@, JsonModel::String(label + field_name)),
            ("type"@, JsonModel::String(kind)),
        ],
    )
}

/// The fragment that stands for the items of an array without items.
pub open spec fn unknown_items() -> JsonModel {
    JsonModel::Object(
        seq![("description"@, JsonModel::String("Array type - items unknown from empty array"@))],
    )
}

/// The option of an `anyOf` that admits `null`.
pub open spec fn null_option() -> JsonModel {
    JsonModel::Object(seq![("type"@, JsonModel::String("null"@))])
}

/// The option of an `anyOf` that stands for the type that a `null` example hides.
pub open spec fn undetermined_option() -> JsonModel {
    JsonModel::Object(
        seq![("description"@, JsonModel::String("type undetermined"@))],
    )
}

/// The schema fragment for a field of the given name, read off its example
/// value.
pub open spec fn field_schema(value: JsonModel, field_name: Seq<char>) -> JsonModel
    decreases value,
{
    match value {
        JsonModel::String(_) => described("string"@, "String field: "@, field_name),
        JsonModel::Number(n) => if n is Float {
            described("number"@, "Number field: "@, field_name)
        } else {
            described("integer"@, "Integer field: "@, field_name)
        },
        JsonModel::Bool(_) => described("boolean"@, "Boolean field: "@, field_name),
        JsonModel::Array(items) => JsonModel::Object(
            seq![
                ("description"@, JsonModel::String("Array field: "@ + field_name)),
                (
                    "items"@,
                    if items.len() > 0 {
                        field_schema(items[0], "array_item"@)
                    } else {
                        unknown_items()
                    },
                ),
                ("type"@, JsonModel::String("array"@)),
            ],
        ),
        JsonModel::Object(entries) => JsonModel::Object(
            seq![
                ("description"@, JsonModel::String("Object field: "@ + field_name)),
                ("properties"@, JsonModel::Object(properties_of(entries))),
                ("required"@, JsonModel::Array(required_of(entries))),
                ("type"@, JsonModel::String("object"@)),
            ],
        ),
        JsonModel::Null => JsonModel::Object(
            seq![
                ("anyOf"@, JsonModel::Array(seq![null_option(), undetermined_option()])),
                ("description"@, JsonModel::String("Optional field: "@ + field_name)),
            ],
        ),
    }
}

/// One fragment for each entry, under the entry's key.
pub open spec fn properties_of(entries: Seq<(Seq<char>, JsonModel)>) -> Seq<(Seq<char>, JsonModel)>
    decreases entries,
{
    Seq::new(
        entries.len(),
        |i: int|
            if 0 <= i < entries.len() {
                (entries[i].0, field_schema(entries[i].1, entries[i].0))
            } else {
                (Seq::empty(), JsonModel::Null)
            },
    )
}

/// Whether an entry's value is anything but `null`.
pub open spec fn has_value() -> spec_fn((Seq<char>, JsonModel)) -> bool {
    |entry: (Seq<char>, JsonModel)| !(entry.1 is Null)
}

/// An entry's key, as a JSON string.
pub open spec fn key_string() -> spec_fn((Seq<char>, JsonModel)) -> JsonModel {
    |entry: (Seq<char>, JsonModel)| JsonModel::String(entry.0)
}

/// The keys of the entries whose value is not `null`, in the entries' order.
pub open spec fn required_of(entries: Seq<(Seq<char>, JsonModel)>) -> Seq<JsonModel> {
    entries.filter(has_value()).map_values(key_string())
}

/// The schema of a record, read off one example of it.
pub open spec fn structure_schema(entries: Seq<(Seq<char>, JsonModel)>) -> JsonModel {
    JsonModel::Object(
        seq![
            ("$schema"@, JsonModel::String("http://json-schema.org/draft-07/schema#"@)),
            ("description"@, JsonModel::String("Amazon Q CLI conversation state structure"@)),
            ("properties"@, JsonModel::Object(properties_of(entries))),
            ("required"@, JsonModel::Array(required_of(entries))),
            ("title"@, JsonModel::String("ConversationState"@)),
            ("type"@, JsonModel::String("object"@)),
        ],
    )
}

/// The keys that the fragments are written with stand in key order.
pub proof fn lemma_schema_keys_ordered()
    ensures
        key_lt("$schema"@, "description"@),
        key_lt("anyOf"@, "description"@),
        key_lt("description"@, "items"@),
        key_lt("description"@, "properties"@),
        key_lt("description"@, "type"@),
        key_lt("items"@, "type"@),
        key_lt("properties"@, "required"@),
        key_lt("required"@, "title"@),
        key_lt("required"@, "type"@),
        key_lt("title"@, "type"@),
{
    reveal_strlit("$schema");
    reveal_strlit("anyOf");
    reveal_strlit("description");
    reveal_strlit("items");
    reveal_strlit("properties");
    reveal_strlit("required");
    reveal_strlit("title");
    reveal_strlit("type");
    lemma_key_lt_differs_at("$schema"@, "description"@, 0);
    lemma_key_lt_differs_at("anyOf"@, "description"@, 0);
    lemma_key_lt_differs_at("description"@, "items"@, 0);
    lemma_key_lt_differs_at("description"@, "properties"@, 0);
    lemma_key_lt_differs_at("description"@, "type"@, 0);
    lemma_key_lt_differs_at("items"@, "type"@, 0);
    lemma_key_lt_differs_at("properties"@, "required"@, 0);
    lemma_key_lt_differs_at("required"@, "title"@, 0);
    lemma_key_lt_differs_at("required"@, "type"@, 0);
    lemma_key_lt_differs_at("title"@, "type"@, 1);
}

/// The entries of a record's schema stand in key order.
pub proof fn lemma_structure_schema_sorted(entries: Seq<(Seq<char>, JsonModel)>)
    ensures
        strictly_sorted(keys_of(structure_schema(entries)->Object_0)),
{
    lemma_schema_keys_ordered();
    lemma_sorted_from_adjacent(keys_of(structure_schema(entries)->Object_0));
}

/// Under each key, the fragments of the entries hold the fragment of the
/// value that the entries hold under it, and under no other key anything.
pub proof fn lemma_properties_lookup(entries: Seq<(Seq<char>, JsonModel)>, key: Seq<char>)
    ensures
        lookup(properties_of(entries), key) == match lookup(entries, key) {
            Some(value) => Some(field_schema(value, key)),
            None => None,
        },
    decreases entries.len(),
{
    if entries.len() > 0 {
        assert(properties_of(entries).drop_first() =~= properties_of(entries.drop_first()));
        lemma_properties_lookup(entries.drop_first(), key);
    }
}

/// The schema read off a record has the type `object`, and under `properties`
/// one fragment for each key of the record and none for any other key.
pub proof fn lemma_properties_match_fields(entries: Seq<(Seq<char>, JsonModel)>)
    ensures
        field_of(structure_schema(entries), "type"@) == Some(JsonModel::String("object"@)),
        field_of(structure_schema(entries), "properties"@) == Some(
            JsonModel::Object(properties_of(entries)),
        ),
        keys_of(properties_of(entries)) == keys_of(entries),
        forall|key: Seq<char>| (#[trigger] lookup(properties_of(entries), key) is Some) == (lookup(entries, key) is Some),
{
    lemma_structure_schema_sorted(entries);
    let schema_entries = structure_schema(entries)->Object_0;
    lemma_lookup_index(schema_entries, 2);
    lemma_lookup_index(schema_entries, 5);
    assert(keys_of(properties_of(entries)) =~= keys_of(entries));
    assert forall|key: Seq<char>| (#[trigger] lookup(properties_of(entries), key) is Some) == (lookup(
        entries,
        key,
    ) is Some) by {
        lemma_properties_lookup(entries, key);
    }
}

/// The schema read off a record lists under `required` the keys of the
/// fields whose example value is not `null`, and those only.
pub proof fn lemma_required_fields(entries: Seq<(Seq<char>, JsonModel)>)
    ensures
        field_of(structure_schema(entries), "required"@) == Some(JsonModel::Array(required_of(entries))),
        forall|i: int|
            0 <= i < entries.len() && !(entries[i].1 is Null) ==> required_of(entries).contains(
                JsonModel::String(#[trigger] entries[i].0),
            ),
        forall|name: JsonModel| #[trigger]
            required_of(entries).contains(name) ==> exists|i: int|
                0 <= i < entries.len() && !((#[trigger] entries[i]).1 is Null) && name == JsonModel::String(
                    entries[i].0,
                ),
{
    lemma_structure_schema_sorted(entries);
    lemma_lookup_index(structure_schema(entries)->Object_0, 3);
    let kept = entries.filter(has_value());
    entries.filter_lemma(has_value());
    assert forall|i: int| 0 <= i < entries.len() && !(entries[i].1 is Null) implies required_of(
        entries,
    ).contains(JsonModel::String(#[trigger] entries[i].0)) by {
        assert(has_value()(entries[i]));
        assert(kept.contains(entries[i]));
        let at = choose|at: int| 0 <= at < kept.len() && kept[at] == entries[i];
        assert(required_of(entries)[at] == JsonModel::String(entries[i].0));
    }
    assert forall|name: JsonModel| #[trigger] required_of(entries).contains(name) implies exists|i: int|
        0 <= i < entries.len() && !((#[trigger] entries[i]).1 is Null) && name == JsonModel::String(
            entries[i].0,
        ) by {
        let at = choose|at: int| 0 <= at < required_of(entries).len() && required_of(entries)[at] == name;
        assert(has_value()(kept[at]));
        assert(kept.contains(kept[at]));
        entries.lemma_filter_contains_rev(has_value(), kept[at]);
        let i = choose|i: int| 0 <= i < entries.len() && entries[i] == kept[at];
        assert(!(entries[i].1 is Null) && name == JsonModel::String(entries[i].0));
    }
}

/// A field whose example value is `null` gets a fragment with an `anyOf` that
/// offers the type `null`.
pub proof fn lemma_null_field_offers_null(field_name: Seq<char>)
    ensures
        field_of(field_schema(JsonModel::Null, field_name), "anyOf"@) == Some(
            JsonModel::Array(seq![null_option(), undetermined_option()]),
        ),
        seq![null_option(), undetermined_option()].contains(null_option()),
        field_of(null_option(), "type"@) == Some(JsonModel::String("null"@)),
{
    lemma_schema_keys_ordered();
    let fragment = field_schema(JsonModel::Null, field_name)->Object_0;
    lemma_sorted_from_adjacent(keys_of(fragment));
    lemma_lookup_index(fragment, 0);
    assert(seq![null_option(), undetermined_option()][0] == null_option());
    lemma_sorted_from_adjacent(keys_of(null_option()->Object_0));
    lemma_lookup_index(null_option()->Object_0, 0);
}

/// The fragment of an array describes the items by the fragment of the first
/// item alone, whatever follows it; that of an array without items, by the
/// placeholder.
pub proof fn lemma_array_items_follow_first(items: Seq<JsonModel>, field_name: Seq<char>)
    ensures
        field_of(field_schema(JsonModel::Array(items), field_name), "type"@) == Some(
            JsonModel::String("array"@),
        ),
        items.len() > 0 ==> field_of(field_schema(JsonModel::Array(items), field_name), "items"@) == Some(
            field_schema(items[0], "array_item"@),
        ),
        items.len() > 0 ==> field_schema(JsonModel::Array(items), field_name) == field_schema(
            JsonModel::Array(seq![items[0]]),
            field_name,
        ),
        items.len() == 0 ==> field_of(field_schema(JsonModel::Array(items), field_name), "items"@) == Some(
            unknown_items(),
        ),
{
    lemma_schema_keys_ordered();
    let fragment = field_schema(JsonModel::Array(items), field_name)->Object_0;
    lemma_sorted_from_adjacent(keys_of(fragment));
    lemma_lookup_index(fragment, 1);
    lemma_lookup_index(fragment, 2);
    if items.len() > 0 {
        assert(seq![items[0]][0] == items[0]);
    }
}

/// The fragment of an object has the type `object`, and describes the
/// object's fields as the schema of a record describes the record's: under
/// `properties` one fragment for each key and none for any other key, under
/// `required` the keys whose value is not `null`.
pub proof fn lemma_object_field_is_read_in_depth(entries: Seq<(Seq<char>, JsonModel)>, field_name: Seq<char>)
    ensures
        ({
            let fragment = field_schema(JsonModel::Object(entries), field_name);
            &&& field_of(fragment, "type"@) == Some(JsonModel::String("object"@))
            &&& field_of(fragment, "properties"@) == Some(JsonModel::Object(properties_of(entries)))
            &&& field_of(fragment, "required"@) == Some(JsonModel::Array(required_of(entries)))
            &&& field_of(fragment, "properties"@) == field_of(structure_schema(entries), "properties"@)
            &&& field_of(fragment, "required"@) == field_of(structure_schema(entries), "required"@)
        }),
        keys_of(properties_of(entries)) == keys_of(entries),
        forall|i: int|
            0 <= i < entries.len() ==> (#[trigger] properties_of(entries)[i]).1 == field_schema(
                entries[i].1,
                entries[i].0,
            ),
{
    lemma_schema_keys_ordered();
    let fragment = field_schema(JsonModel::Object(entries), field_name)->Object_0;
    lemma_sorted_from_adjacent(keys_of(fragment));
    lemma_lookup_index(fragment, 1);
    lemma_lookup_index(fragment, 2);
    lemma_lookup_index(fragment, 3);
    lemma_properties_match_fields(entries);
    lemma_required_fields(entries);
}

/// A fragment of a `type` and a `description`.
fn describe(kind: &str, label: &str, field_name: &str) -> (schema: JsonValue)
    ensures
        schema@ == described(kind@, label@, field_name@),
{
    let mut description = String::from_str(label);
    description.append(field_name);
    let mut map = JsonMap::new();
    map.push_last(String::from_str("description"), JsonValue::String(description));
    proof {
        lemma_schema_keys_ordered();
    }
    map.push_last(String::from_str("type"), JsonValue::string(kind));
    assert(map@ =~= described(kind@, label@, field_name@)->Object_0);
    JsonValue::Object(map)
}

/// An object of one entry.
fn single_entry(key: &str, value: JsonValue) -> (object: JsonValue)
    ensures
        object@ == JsonModel::Object(seq![(key@, value@)]),
{
    let mut map = JsonMap::new();
    map.push_last(String::from_str(key), value);
    assert(map@ =~= seq![(key@, value@)]);
    JsonValue::Object(map)
}

/// Reads the fragments of the fields of an object, and the keys of the
/// fields whose value is not `null`.
fn analyze_fields(parent: &JsonValue, fields: &JsonMap) -> (result: Result<
    (JsonMap, Vec<JsonValue>),
    SchemaError,
>)
    requires
        *parent == JsonValue::Object(*fields),
    ensures
        result matches Ok((properties, required)) && properties@ == properties_of(fields@)
            && items_model(required@) == required_of(fields@),
    decreases parent, 0nat,
{
    let ghost entries = fields@;
    let mut properties = JsonMap::new();
    let mut required: Vec<JsonValue> = Vec::new();
    let n = fields.len();
    let mut i: usize = 0;
    proof {
        use_type_invariant(fields);
        reveal(Seq::filter);
        assert(properties@ =~= properties_of(entries.take(0)));
        assert(items_model(required@) =~= required_of(entries.take(0)));
    }
    while i < n
        invariant
            *parent == JsonValue::Object(*fields),
            entries == fields@,
            strictly_sorted(keys_of(entries)),
            n == entries.len(),
            i <= n,
            properties@ == properties_of(entries.take(i as int)),
            items_model(required@) == required_of(entries.take(i as int)),
        decreases n - i,
    {
        match fields.entry_at(i) {
            Some((field_name, field_value)) => {
                assert(decreases_to!(*parent => parent->Object_0));
                let field = match analyze_field_structure(field_value, field_name.as_str()) {
                    Ok(field) => field,
                    Err(e) => {
                        return Err(e);
                    },
                };
                let ghost before = entries.take(i as int);
                let ghost after = entries.take(i + 1);
                proof {
                    assert(after.drop_last() =~= before);
                    assert(after.last() == entries[i as int]);
                    if i > 0 {
                        assert(properties@.last().0 == keys_of(entries)[i - 1]);
                        assert(key_lt(keys_of(entries)[i - 1], keys_of(entries)[i as int]));
                    }
                }
                properties.push_last(field_name.clone(), field);
                assert(properties@ =~= properties_of(after));
                let ghost listed = items_model(required@);
                if !field_value.is_null() {
                    required.push(JsonValue::String(field_name.clone()));
                    assert(items_model(required@) =~= listed.push(JsonModel::String(field_name@)));
                }
                proof {
                    reveal(Seq::filter);
                    assert(after.filter(has_value()) == if has_value()(after.last()) {
                        before.filter(has_value()).push(after.last())
                    } else {
                        before.filter(has_value())
                    });
                    assert(items_model(required@) =~= required_of(after));
                }
            },
            None => {},
        }
        i += 1;
    }
    assert(entries.take(n as int) =~= entries);
    Ok((properties, required))
}

/// Reads the schema fragment for the field `field_name` off its example value.
///
/// For an object the fragment describes each field in turn, to any depth.
/// For an array it describes the items by the first of them, under the name
/// `array_item`, and an array without items by a placeholder. For `null` it
/// offers `null` or a type that the example does not show.
pub fn analyze_field_structure(value: &JsonValue, field_name: &str) -> (result: Result<
    JsonValue,
    SchemaError,
>)
    ensures
        result matches Ok(schema) && schema@ == field_schema(value@, field_name@),
        value@ is Null ==> ({
            &&& result matches Ok(schema)
            &&& field_of(schema@, "anyOf"@) matches Some(JsonModel::Array(options))
            &&& options.contains(null_option())
        }),
        value@ is Object ==> ({
            &&& result matches Ok(schema)
            &&& field_of(schema@, "type"@) == Some(JsonModel::String("object"@))
            &&& field_of(schema@, "properties"@) == Some(
                JsonModel::Object(properties_of(value@->Object_0)),
            )
            &&& field_of(schema@, "required"@) == Some(JsonModel::Array(required_of(value@->Object_0)))
        }),
        value@ is Array ==> ({
            &&& result matches Ok(schema)
            &&& field_of(schema@, "items"@) == Some(
                if value@->Array_0.len() > 0 {
                    field_schema(value@->Array_0[0], "array_item"@)
                } else {
                    unknown_items()
                },
            )
        }),
    decreases value, 1nat,
{
    proof {
        lemma_null_field_offers_null(field_name@);
        if value@ is Array {
            lemma_array_items_follow_first(value@->Array_0, field_name@);
        }
        if value@ is Object {
            lemma_object_field_is_read_in_depth(value@->Object_0, field_name@);
        }
    }
    let schema = match value {
        JsonValue::String(_) => describe("string", "String field: ", field_name),
        JsonValue::Number(n) => {
            if n.is_i64() || n.is_u64() {
                describe("integer", "Integer field: ", field_name)
            } else {
                describe("number", "Number field: ", field_name)
            }
        },
        JsonValue::Bool(_) => describe("boolean", "Boolean field: ", field_name),
        JsonValue::Array(items) => {
            let items_schema = if items.len() > 0 {
                match analyze_field_structure(&items[0], "array_item") {
                    Ok(first) => first,
                    Err(e) => {
                        return Err(e);
                    },
                }
            } else {
                single_entry(
                    "description",
                    JsonValue::string("Array type - items unknown from empty array"),
                )
            };
            let mut description = String::from_str("Array field: ");
            description.append(field_name);
            let mut map = JsonMap::new();
            proof {
                lemma_schema_keys_ordered();
            }
            map.push_last(String::from_str("description"), JsonValue::String(description));
            map.push_last(String::from_str("items"), items_schema);
            map.push_last(String::from_str("type"), JsonValue::string("array"));
            assert(map@ =~= field_schema(value@, field_name@)->Object_0);
            JsonValue::Object(map)
        },
        JsonValue::Object(fields) => {
            let (properties, required) = match analyze_fields(value, fields) {
                Ok(read) => read,
                Err(e) => {
                    return Err(e);
                },
            };
            let mut description = String::from_str("Object field: ");
            description.append(field_name);
            let mut map = JsonMap::new();
            proof {
                lemma_schema_keys_ordered();
            }
            map.push_last(String::from_str("description"), JsonValue::String(description));
            map.push_last(String::from_str("properties"), JsonValue::Object(properties));
            map.push_last(String::from_str("required"), JsonValue::Array(required));
            map.push_last(String::from_str("type"), JsonValue::string("object"));
            assert(map@ =~= field_schema(value@, field_name@)->Object_0);
            JsonValue::Object(map)
        },
        JsonValue::Null => {
            let mut options: Vec<JsonValue> = Vec::new();
            options.push(single_entry("type", JsonValue::string("null")));
            options.push(
                single_entry(
                    "description",
                    JsonValue::string("type undetermined"),
                ),
            );
            let any_of = JsonValue::Array(options);
            assert(items_model(options@) =~= seq![null_option(), undetermined_option()]);
            let mut description = String::from_str("Optional field: ");
            description.append(field_name);
            let mut map = JsonMap::new();
            proof {
                lemma_schema_keys_ordered();
            }
            map.push_last(String::from_str("anyOf"), any_of);
            map.push_last(String::from_str("description"), JsonValue::String(description));
            assert(map@ =~= field_schema(value@, field_name@)->Object_0);
            JsonValue::Object(map)
        },
    };
    Ok(schema)
}

/// Reads the schema of a record off one example of it.
///
/// The schema has a fragment under `properties` for each field of the example
/// and lists under `required` the fields whose example value is not `null`.
/// That list is a best guess: one example cannot show whether a field may be
/// left out. A value that is not an object has no such schema.
pub fn analyze_complete_structure(value: &JsonValue) -> (result: Result<JsonValue, SchemaError>)
    ensures
        match value@ {
            JsonModel::Object(entries) => result matches Ok(schema) && schema@ == structure_schema(
                entries,
            ),
            _ => result == Err::<JsonValue, SchemaError>(SchemaError::RootNotObject),
        },
        value@ is Object ==> ({
            &&& result matches Ok(schema)
            &&& field_of(schema@, "type"@) == Some(JsonModel::String("object"@))
            &&& field_of(schema@, "properties"@) matches Some(JsonModel::Object(properties))
            &&& keys_of(properties) == keys_of(value@->Object_0)
        }),
{
    proof {
        if value@ is Object {
            lemma_properties_match_fields(value@->Object_0);
        }
    }
    match value {
        JsonValue::Object(fields) => {
            let ghost entries = fields@;
            let (properties, required) = match analyze_fields(value, fields) {
                Ok(read) => read,
                Err(e) => {
                    return Err(e);
                },
            };
            let mut map = JsonMap::new();
            proof {
                lemma_schema_keys_ordered();
            }
            map.push_last(
                String::from_str("$schema"),
                JsonValue::string("http://json-schema.org/draft-07/schema#"),
            );
            map.push_last(
                String::from_str("description"),
                JsonValue::string("Amazon Q CLI conversation state structure"),
            );
            map.push_last(String::from_str("properties"), JsonValue::Object(properties));
            map.push_last(String::from_str("required"), JsonValue::Array(required));
            map.push_last(String::from_str("title"), JsonValue::string("ConversationState"));
            map.push_last(String::from_str("type"), JsonValue::string("object"));
            assert(map@ =~= structure_schema(entries)->Object_0);
            Ok(JsonValue::Object(map))
        },
        _ => Err(SchemaError::RootNotObject),
    }
}

} // verus!
