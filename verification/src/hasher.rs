//! The content hash of a schema: the SHA-256 digest of its compact JSON text,
//! in lower-case hexadecimal.
//!
//! The time at which a schema was made is no part of its content. A schema
//! carries that time at its top level, under `_generation_timestamp`, and is
//! hashed without it: the same shape has the same hash whenever it is
//! captured.

use sha2::Digest;
use vstd::prelude::*;
use vstd::utf8::encode_utf8;
use crate::json::{
    keys_of, lemma_lookup_sorted, lemma_remove_entry, lemma_sorted_entries_equal, lookup,
    remove_entry, JsonModel, JsonValue,
};
use crate::key_order::strictly_sorted;
use crate::serde_bridge::{compact_text, to_compact_json};

verus! {

/// The SHA-256 digest of a byte string, as `sha2` computes it.
pub uninterp spec fn sha256_digest(data: Seq<u8>) -> Seq<u8>;

/// `sha2::Sha256::digest`: the digest of the bytes, which is 32 bytes long.
#[verifier::external_body]
fn sha256(data: &[u8]) -> (digest: Vec<u8>)
    ensures
        digest@ == sha256_digest(data@),
        digest@.len() == 32,
{
    sha2::Sha256::digest(data).to_vec()
}

/// The lower-case hexadecimal digit for a value below sixteen.
pub open spec fn hex_digit(nibble: int) -> char {
    seq!['0', '1', '2', '3', '4', '5', '6', '7', '8', '9', 'a', 'b', 'c', 'd', 'e', 'f'][nibble]
}

/// Two hexadecimal digits for each byte, the high half first.
pub open spec fn hex_text(bytes: Seq<u8>) -> Seq<char> {
    Seq::new(
        2 * bytes.len(),
        |i: int|
            if i % 2 == 0 {
                hex_digit(bytes[i / 2] as int / 16)
            } else {
                hex_digit(bytes[i / 2] as int % 16)
            },
    )
}

/// The hash of a schema's compact text.
pub open spec fn text_hash(text: Seq<char>) -> Seq<char> {
    hex_text(sha256_digest(encode_utf8(text)))
}

/// A schema without the time of its making: without the entry that an object
/// has under `_generation_timestamp`.
pub open spec fn without_generation_timestamp(schema: JsonModel) -> JsonModel {
    match schema {
        JsonModel::Object(entries) => JsonModel::Object(
            remove_entry(entries, "_generation_timestamp"@),
        ),
        _ => schema,
    }
}

/// The hash of a schema: that of the compact text of the schema without the
/// time of its making, and that of the empty text where that cannot be
/// written out.
pub open spec fn schema_hash_text(schema: JsonModel) -> Seq<char> {
    text_hash(
        match compact_text(without_generation_timestamp(schema)) {
            Some(text) => text,
            None => Seq::empty(),
        },
    )
}

/// The one-character string of a hexadecimal digit.
fn digit_str(nibble: u8) -> (digit: &'static str)
    requires
        nibble < 16,
    ensures
        digit@ == seq![hex_digit(nibble as int)],
{
    proof {
        reveal_strlit("0");
        reveal_strlit("1");
        reveal_strlit("2");
        reveal_strlit("3");
        reveal_strlit("4");
        reveal_strlit("5");
        reveal_strlit("6");
        reveal_strlit("7");
        reveal_strlit("8");
        reveal_strlit("9");
        reveal_strlit("a");
        reveal_strlit("b");
        reveal_strlit("c");
        reveal_strlit("d");
        reveal_strlit("e");
        reveal_strlit("f");
    }
    let digit = match nibble {
        0 => "0",
        1 => "1",
        2 => "2",
        3 => "3",
        4 => "4",
        5 => "5",
        6 => "6",
        7 => "7",
        8 => "8",
        9 => "9",
        10 => "a",
        11 => "b",
        12 => "c",
        13 => "d",
        14 => "e",
        _ => "f",
    };
    assert(digit@ =~= seq![hex_digit(nibble as int)]);
    digit
}

/// Writes bytes in lower-case hexadecimal.
pub fn to_hex(bytes: &[u8]) -> (text: String)
    ensures
        text@ == hex_text(bytes@),
{
    let mut text = String::new();
    let n = bytes.len();
    let mut i: usize = 0;
    assert(text@ =~= hex_text(bytes@.take(0)));
    while i < n
        invariant
            n == bytes@.len(),
            i <= n,
            text@ == hex_text(bytes@.take(i as int)),
        decreases n - i,
    {
        let byte = bytes[i];
        text.append(digit_str(byte / 16));
        text.append(digit_str(byte % 16));
        assert(text@ =~= hex_text(bytes@.take(i + 1))) by {
            let before = bytes@.take(i as int);
            let after = bytes@.take(i + 1);
            assert forall|k: int| 0 <= k < 2 * i implies hex_text(before)[k] == hex_text(after)[k] by {
                assert(before[k / 2] == after[k / 2]);
            }
            assert(after[i as int] == byte);
        }
        i += 1;
    }
    assert(bytes@.take(n as int) =~= bytes@);
    text
}

/// The hash of a text: the SHA-256 digest of its UTF-8 bytes, in hexadecimal.
pub fn hash_text(text: &str) -> (hash: String)
    ensures
        hash@ == text_hash(text@),
        hash@.len() == 64,
{
    let digest = sha256(text.as_bytes());
    to_hex(digest.as_slice())
}

/// The content hash of a schema: the hash of its compact text, taken without
/// the time of its making.
pub fn calculate_schema_hash(schema: &JsonValue) -> (hash: String)
    ensures
        hash@ == schema_hash_text(schema@),
        hash@.len() == 64,
{
    let written = match schema {
        JsonValue::Object(map) => {
            if map.contains_key("_generation_timestamp") {
                let mut content = map.clone();
                content.remove("_generation_timestamp");
                to_compact_json(&JsonValue::Object(content))
            } else {
                proof {
                    use_type_invariant(map);
                    lemma_lookup_sorted(map@, "_generation_timestamp"@);
                }
                to_compact_json(schema)
            }
        },
        _ => to_compact_json(schema),
    };
    let text = match written {
        Some(text) => text,
        None => String::new(),
    };
    hash_text(text.as_str())
}

/// Schemas that differ in nothing but the time of their making have the same
/// hash: objects that hold the same under every key but
/// `_generation_timestamp`.
pub proof fn lemma_hash_ignores_generation_timestamp(
    first: Seq<(Seq<char>, JsonModel)>,
    second: Seq<(Seq<char>, JsonModel)>,
)
    requires
        strictly_sorted(keys_of(first)),
        strictly_sorted(keys_of(second)),
        forall|key: Seq<char>| key != "_generation_timestamp"@ ==> lookup(first, key) == lookup(second, key),
    ensures
        without_generation_timestamp(JsonModel::Object(first)) == without_generation_timestamp(
            JsonModel::Object(second),
        ),
        schema_hash_text(JsonModel::Object(first)) == schema_hash_text(JsonModel::Object(second)),
{
    let stamp = "_generation_timestamp"@;
    let a = remove_entry(first, stamp);
    let b = remove_entry(second, stamp);
    lemma_remove_entry(first, stamp, stamp);
    lemma_remove_entry(second, stamp, stamp);
    assert forall|key: Seq<char>| lookup(a, key) == lookup(b, key) by {
        lemma_remove_entry(first, stamp, key);
        lemma_remove_entry(second, stamp, key);
    }
    lemma_sorted_entries_equal(a, b);
}

/// The hash depends on nothing but the schema: schemas that hold the same
/// content have the same hash, whenever and however often it is computed.
pub proof fn lemma_schema_hash_deterministic(first: JsonValue, second: JsonValue)
    requires
        first@ == second@,
    ensures
        schema_hash_text(first@) == schema_hash_text(second@),
{
}

} // verus!
