//! The two ways to a schema, and the notes that each leaves in it.
//!
//! The structural way reads the schema off an example of the record. The
//! declarative way is handed the schema that was derived from the record's
//! declaration. Either way the schema is marked with how and when it was made.

use vstd::prelude::*;
use crate::analyzer::{analyze_complete_structure, structure_schema};
use crate::error::SchemaError;
use crate::hasher::{lemma_hash_ignores_generation_timestamp, schema_hash_text};
use crate::json::{
    field_of, insert_entry, keys_of, lemma_insert_entry_lookup, lemma_insert_entry_sorted, lookup,
    JsonModel, JsonValue,
};
use crate::key_order::strictly_sorted;
use crate::timestamp::{rfc3339_text, Timestamp};

verus! {

/// A schema with the notes on its making: the method, the time and a remark,
/// each under a key of its own. What is no object is left as it is.
pub open spec fn with_generation_metadata(
    schema: JsonModel,
    method: Seq<char>,
    timestamp: Seq<char>,
    note: Seq<char>,
) -> JsonModel {
    match schema {
        JsonModel::Object(entries) => JsonModel::Object(
            insert_entry(
                insert_entry(
                    insert_entry(entries, "_generation_method"@, JsonModel::String(method)),
                    "_generation_timestamp"@,
                    JsonModel::String(timestamp),
                ),
                "_note"@,
                JsonModel::String(note),
            ),
        ),
        _ => schema,
    }
}

/// The schema that the declarative way gives at the time `now`.
pub open spec fn declarative_schema(derived: JsonModel, now: Timestamp) -> Result<JsonModel, SchemaError> {
    match rfc3339_text(now.secs, now.nanos) {
        Some(timestamp) => Ok(
            with_generation_metadata(
                derived,
                "schemars_complete_introspection"@,
                timestamp,
                "Generated using schemars with copied types + JsonSchema derives"@,
            ),
        ),
        None => Err(SchemaError::InvalidTimestamp),
    }
}

/// The schema that the structural way gives for an example at the time `now`.
pub open spec fn structural_schema(example: JsonModel, now: Timestamp) -> Result<JsonModel, SchemaError> {
    match example {
        JsonModel::Object(entries) => match rfc3339_text(now.secs, now.nanos) {
            Some(timestamp) => Ok(
                with_generation_metadata(
                    structure_schema(entries),
                    "type_introspection"@,
                    timestamp,
                    "Generated through type introspection without upstream modifications"@,
                ),
            ),
            None => Err(SchemaError::InvalidTimestamp),
        },
        _ => Err(SchemaError::RootNotObject),
    }
}

/// A marked schema holds the method, the time and the remark under their
/// keys, and under every other key what the schema held before.
pub proof fn lemma_generation_metadata_fields(
    entries: Seq<(Seq<char>, JsonModel)>,
    method: Seq<char>,
    timestamp: Seq<char>,
    note: Seq<char>,
    key: Seq<char>,
)
    requires
        strictly_sorted(keys_of(entries)),
    ensures
        field_of(with_generation_metadata(JsonModel::Object(entries), method, timestamp, note), key)
            == if key == "_note"@ {
            Some(JsonModel::String(note))
        } else if key == "_generation_timestamp"@ {
            Some(JsonModel::String(timestamp))
        } else if key == "_generation_method"@ {
            Some(JsonModel::String(method))
        } else {
            lookup(entries, key)
        },
{
    let first = insert_entry(entries, "_generation_method"@, JsonModel::String(method));
    let second = insert_entry(first, "_generation_timestamp"@, JsonModel::String(timestamp));
    lemma_insert_entry_sorted(entries, "_generation_method"@, JsonModel::String(method));
    lemma_insert_entry_sorted(first, "_generation_timestamp"@, JsonModel::String(timestamp));
    lemma_insert_entry_lookup(entries, "_generation_method"@, JsonModel::String(method), key);
    lemma_insert_entry_lookup(first, "_generation_timestamp"@, JsonModel::String(timestamp), key);
    lemma_insert_entry_lookup(second, "_note"@, JsonModel::String(note), key);
}

/// A schema names the strategy that made it: under `_generation_method` the
/// declarative strategy leaves its name in the object it is handed, and the
/// structural strategy its own in the schema it reads off an example.
pub proof fn lemma_schema_names_its_method(source: JsonModel, now: Timestamp)
    requires
        source is Object ==> strictly_sorted(keys_of(source->Object_0)),
    ensures
        source is Object ==> (declarative_schema(source, now) matches Ok(schema) ==> field_of(
            schema,
            "_generation_method"@,
        ) == Some(JsonModel::String("schemars_complete_introspection"@))),
        structural_schema(source, now) matches Ok(schema) ==> field_of(schema, "_generation_method"@) == Some(
            JsonModel::String("type_introspection"@),
        ),
{
    reveal_strlit("_generation_method");
    reveal_strlit("_generation_timestamp");
    reveal_strlit("_note");
    assert("_generation_method"@[1] != "_note"@[1]);
    assert("_generation_method"@.len() != "_generation_timestamp"@.len());
    if source is Object {
        if rfc3339_text(now.secs, now.nanos) is Some {
            let timestamp = rfc3339_text(now.secs, now.nanos).unwrap();
            lemma_generation_metadata_fields(
                source->Object_0,
                "schemars_complete_introspection"@,
                timestamp,
                "Generated using schemars with copied types + JsonSchema derives"@,
                "_generation_method"@,
            );
            crate::analyzer::lemma_structure_schema_sorted(source->Object_0);
            lemma_generation_metadata_fields(
                structure_schema(source->Object_0)->Object_0,
                "type_introspection"@,
                timestamp,
                "Generated through type introspection without upstream modifications"@,
                "_generation_method"@,
            );
        }
    }
}

/// A marked schema has sorted keys if the schema had.
pub proof fn lemma_generation_metadata_sorted(
    entries: Seq<(Seq<char>, JsonModel)>,
    method: Seq<char>,
    timestamp: Seq<char>,
    note: Seq<char>,
)
    requires
        strictly_sorted(keys_of(entries)),
    ensures
        strictly_sorted(
            keys_of(
                with_generation_metadata(JsonModel::Object(entries), method, timestamp, note)->Object_0,
            ),
        ),
{
    let first = insert_entry(entries, "_generation_method"@, JsonModel::String(method));
    let second = insert_entry(first, "_generation_timestamp"@, JsonModel::String(timestamp));
    lemma_insert_entry_sorted(entries, "_generation_method"@, JsonModel::String(method));
    lemma_insert_entry_sorted(first, "_generation_timestamp"@, JsonModel::String(timestamp));
    lemma_insert_entry_sorted(second, "_note"@, JsonModel::String(note));
}

/// The hash of a marked schema does not depend on the time it is marked
/// with: the same schema, marked by the same method at two times, has one
/// hash.
pub proof fn lemma_marked_schema_hash_ignores_time(
    schema: JsonModel,
    method: Seq<char>,
    note: Seq<char>,
    first_time: Seq<char>,
    second_time: Seq<char>,
)
    requires
        schema is Object ==> strictly_sorted(keys_of(schema->Object_0)),
    ensures
        schema_hash_text(with_generation_metadata(schema, method, first_time, note)) == schema_hash_text(
            with_generation_metadata(schema, method, second_time, note),
        ),
{
    if schema is Object {
        let entries = schema->Object_0;
        let first = with_generation_metadata(schema, method, first_time, note)->Object_0;
        let second = with_generation_metadata(schema, method, second_time, note)->Object_0;
        lemma_generation_metadata_sorted(entries, method, first_time, note);
        lemma_generation_metadata_sorted(entries, method, second_time, note);
        assert forall|key: Seq<char>| key != "_generation_timestamp"@ implies lookup(first, key) == lookup(
            second,
            key,
        ) by {
            lemma_generation_metadata_fields(entries, method, first_time, note, key);
            lemma_generation_metadata_fields(entries, method, second_time, note, key);
        }
        lemma_hash_ignores_generation_timestamp(first, second);
    }
}

/// Marks a schema with the notes on its making.
pub fn add_generation_metadata(schema: JsonValue, method: &str, timestamp: &str, note: &str) -> (marked:
    JsonValue)
    ensures
        marked@ == with_generation_metadata(schema@, method@, timestamp@, note@),
{
    match schema {
        JsonValue::Object(map) => {
            let mut map = map;
            map.insert(String::from_str("_generation_method"), JsonValue::string(method));
            map.insert(String::from_str("_generation_timestamp"), JsonValue::string(timestamp));
            map.insert(String::from_str("_note"), JsonValue::string(note));
            JsonValue::Object(map)
        },
        other => other,
    }
}

/// How many fields the example shows at its top level; none where it is no
/// object.
pub fn top_level_field_count(example: &JsonValue) -> (count: usize)
    ensures
        count == match example@ {
            JsonModel::Object(entries) => entries.len(),
            _ => 0,
        },
{
    match example.as_object() {
        Some(map) => map.len(),
        None => 0,
    }
}

/// Finishes the schema of the declarative way: marks the schema that was
/// derived from the record's declaration with the method and the time `now`.
pub fn generate_schema_with_schemars(derived: JsonValue, now: &Timestamp) -> (result: Result<
    JsonValue,
    SchemaError,
>)
    ensures
        match result {
            Ok(schema) => declarative_schema(derived@, *now) == Ok::<JsonModel, SchemaError>(schema@),
            Err(e) => declarative_schema(derived@, *now) == Err::<JsonModel, SchemaError>(e),
        },
{
    match now.to_rfc3339() {
        Some(timestamp) => Ok(
            add_generation_metadata(
                derived,
                "schemars_complete_introspection",
                timestamp.as_str(),
                "Generated using schemars with copied types + JsonSchema derives",
            ),
        ),
        None => Err(SchemaError::InvalidTimestamp),
    }
}

/// Makes the schema of the structural way: reads it off the example, which
/// must be an object, and marks it with the method and the time `now`.
pub fn generate_schema_from_actual_type(example: &JsonValue, now: &Timestamp) -> (result: Result<
    JsonValue,
    SchemaError,
>)
    ensures
        match result {
            Ok(schema) => structural_schema(example@, *now) == Ok::<JsonModel, SchemaError>(schema@),
            Err(e) => structural_schema(example@, *now) == Err::<JsonModel, SchemaError>(e),
        },
{
    let schema = match analyze_complete_structure(example) {
        Ok(schema) => schema,
        Err(e) => {
            return Err(e);
        },
    };
    match now.to_rfc3339() {
        Some(timestamp) => Ok(
            add_generation_metadata(
                schema,
                "type_introspection",
                timestamp.as_str(),
                "Generated through type introspection without upstream modifications",
            ),
        ),
        None => Err(SchemaError::InvalidTimestamp),
    }
}

} // verus!
