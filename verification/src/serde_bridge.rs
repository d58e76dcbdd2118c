//! JSON text, written by `serde_json`.
//!
//! The library hands its values to `serde_json` node by node and lets it write
//! them out. What `serde_json` does is taken on trust here, one small
//! declaration for each of its functions; the walk over the tree is verified
//! against those declarations.

use vstd::prelude::*;
use crate::json::{number_model, JsonMap, JsonModel, JsonValue};
use crate::key_order::strictly_sorted;

verus! {

/// `serde_json::Value`, of which nothing is seen here but what the
/// declarations below say.
#[verifier::external_type_specification]
#[verifier::external_body]
pub struct ExValue(serde_json::Value);

/// What a `serde_json::Value` holds, the entries of an object in the order
/// in which its map yields them.
pub uninterp spec fn serde_model(value: serde_json::Value) -> JsonModel;

/// The compact JSON text that `serde_json::to_string` writes for a value, or
/// `None` where it reports an error.
pub uninterp spec fn compact_text(value: JsonModel) -> Option<Seq<char>>;

/// The indented JSON text that `serde_json::to_string_pretty` writes for a
/// value, or `None` where it reports an error.
pub uninterp spec fn pretty_text(value: JsonModel) -> Option<Seq<char>>;

/// The keys of `entries`, in their order.
pub open spec fn serde_keys(entries: Seq<(String, serde_json::Value)>) -> Seq<Seq<char>> {
    Seq::new(entries.len(), |i: int| entries[i].0@)
}

/// What `entries` hold, in their order.
pub open spec fn serde_entries(entries: Seq<(String, serde_json::Value)>) -> Seq<(Seq<char>, JsonModel)> {
    Seq::new(entries.len(), |i: int| (entries[i].0@, serde_model(entries[i].1)))
}

/// `serde_json::Value::Null`.
#[verifier::external_body]
fn serde_null() -> (out: serde_json::Value)
    ensures
        serde_model(out) == JsonModel::Null,
{
    serde_json::Value::Null
}

/// `serde_json::Value::Bool`: a value that holds the boolean.
#[verifier::external_body]
fn serde_bool(b: bool) -> (out: serde_json::Value)
    ensures
        serde_model(out) == JsonModel::Bool(b),
{
    serde_json::Value::Bool(b)
}

/// `serde_json::Value::Number`: a value that holds what the number holds.
#[verifier::external_body]
fn serde_number(n: serde_json::Number) -> (out: serde_json::Value)
    ensures
        serde_model(out) == JsonModel::Number(number_model(n)),
{
    serde_json::Value::Number(n)
}

/// `serde_json::Value::String`: a value that holds the string.
#[verifier::external_body]
fn serde_string(s: String) -> (out: serde_json::Value)
    ensures
        serde_model(out) == JsonModel::String(s@),
{
    serde_json::Value::String(s)
}

/// `serde_json::Value::Array`: a value that holds the items, in their order.
#[verifier::external_body]
fn serde_array(items: Vec<serde_json::Value>) -> (out: serde_json::Value)
    ensures
        serde_model(out) == JsonModel::Array(Seq::new(items@.len(), |i: int| serde_model(items@[i]))),
{
    serde_json::Value::Array(items)
}

/// `FromIterator<(String, Value)>` for `serde_json::Value`: an object of the
/// entries. The object's map yields its entries in key order, so entries that
/// come with strictly increasing keys are yielded as they came.
#[verifier::external_body]
fn serde_object(entries: Vec<(String, serde_json::Value)>) -> (out: serde_json::Value)
    requires
        strictly_sorted(serde_keys(entries@)),
    ensures
        serde_model(out) == JsonModel::Object(serde_entries(entries@)),
{
    serde_json::Value::from_iter(entries)
}

/// `serde_json::to_string`: the compact text of the value, `None` for an error.
#[verifier::external_body]
fn serde_to_string(value: &serde_json::Value) -> (text: Option<String>)
    ensures
        match text {
            Some(t) => compact_text(serde_model(*value)) == Some(t@),
            None => compact_text(serde_model(*value)) is None,
        },
{
    serde_json::to_string(value).ok()
}

/// `serde_json::to_string_pretty`: the indented text of the value, `None` for
/// an error.
#[verifier::external_body]
fn serde_to_string_pretty(value: &serde_json::Value) -> (text: Option<String>)
    ensures
        match text {
            Some(t) => pretty_text(serde_model(*value)) == Some(t@),
            None => pretty_text(serde_model(*value)) is None,
        },
{
    serde_json::to_string_pretty(value).ok()
}

/// The `serde_json` value that holds what `value` holds.
pub fn to_serde_value(value: &JsonValue) -> (out: serde_json::Value)
    ensures
        serde_model(out) == value@,
    decreases value, 1nat,
{
    match value {
        JsonValue::Null => serde_null(),
        JsonValue::Bool(b) => serde_bool(*b),
        JsonValue::Number(n) => serde_number(n.clone()),
        JsonValue::String(s) => serde_string(s.clone()),
        JsonValue::Array(items) => array_to_serde(value, items),
        JsonValue::Object(map) => object_to_serde(value, map),
    }
}

/// The `serde_json` array that holds what `items` hold.
fn array_to_serde(parent: &JsonValue, items: &Vec<JsonValue>) -> (out: serde_json::Value)
    requires
        *parent == JsonValue::Array(*items),
    ensures
        serde_model(out) == parent@,
    decreases parent, 0nat,
{
    let mut converted: Vec<serde_json::Value> = Vec::new();
    let n = items.len();
    let mut i: usize = 0;
    while i < n
        invariant
            *parent == JsonValue::Array(*items),
            n == items@.len(),
            i <= n,
            converted@.len() == i,
            forall|j: int| 0 <= j < i ==> serde_model(#[trigger] converted@[j]) == items@[j]@,
        decreases n - i,
    {
        assert(decreases_to!(*parent => parent->Array_0));
        let item = to_serde_value(&items[i]);
        converted.push(item);
        i += 1;
    }
    let out = serde_array(converted);
    assert(serde_model(out)->Array_0 =~= crate::json::items_model(items@));
    out
}

/// The `serde_json` object that holds what `map` holds.
fn object_to_serde(parent: &JsonValue, map: &JsonMap) -> (out: serde_json::Value)
    requires
        *parent == JsonValue::Object(*map),
    ensures
        serde_model(out) == parent@,
    decreases parent, 0nat,
{
    let mut converted: Vec<(String, serde_json::Value)> = Vec::new();
    let n = map.len();
    let mut i: usize = 0;
    while i < n
        invariant
            *parent == JsonValue::Object(*map),
            n == map@.len(),
            i <= n,
            converted@.len() == i,
            forall|j: int| 0 <= j < i ==> (#[trigger] converted@[j]).0@ == map@[j].0,
            forall|j: int| 0 <= j < i ==> serde_model((#[trigger] converted@[j]).1) == map@[j].1,
        decreases n - i,
    {
        match map.entry_at(i) {
            Some((key, child)) => {
                assert(decreases_to!(*parent => parent->Object_0));
                let item = to_serde_value(child);
                converted.push((key.clone(), item));
            },
            None => {},
        }
        i += 1;
    }
    proof {
        use_type_invariant(map);
        assert(serde_keys(converted@) =~= crate::json::keys_of(map@));
        assert(serde_entries(converted@) =~= map@);
    }
    serde_object(converted)
}

/// The compact JSON text of `value`, or `None` where `serde_json` reports an
/// error.
pub fn to_compact_json(value: &JsonValue) -> (text: Option<String>)
    ensures
        match text {
            Some(t) => compact_text(value@) == Some(t@),
            None => compact_text(value@) is None,
        },
{
    let converted = to_serde_value(value);
    serde_to_string(&converted)
}

/// The indented JSON text of `value`, or `None` where `serde_json` reports an
/// error.
pub fn to_pretty_json(value: &JsonValue) -> (text: Option<String>)
    ensures
        match text {
            Some(t) => pretty_text(value@) == Some(t@),
            None => pretty_text(value@) is None,
        },
{
    let converted = to_serde_value(value);
    serde_to_string_pretty(&converted)
}

} // verus!
