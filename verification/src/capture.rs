//! One capture: a schema with its hash, its time and its revision, as the
//! document that goes to the archive, the name of its file, and the lines
//! that tell the user of it.
//!
//! The library writes no file. It hands back the name and the text; the
//! caller sees to the directory and the write. The name is made of the
//! second of the capture and the strategy, so two captures of one second by
//! one strategy have one name, and the later text takes the place of the
//! earlier. That is accepted: captures are started by hand.

use vstd::prelude::*;
use crate::analyzer::{lemma_structure_schema_sorted, structure_schema};
use crate::error::SchemaError;
use crate::generator::{
    declarative_schema, generate_schema_from_actual_type, generate_schema_with_schemars,
    lemma_marked_schema_hash_ignores_time, structural_schema,
};
use crate::hasher::{calculate_schema_hash, schema_hash_text};
use crate::json::{field_of, keys_of, lemma_lookup_index, JsonMap, JsonModel, JsonValue};
use crate::key_order::{
    key_lt, lemma_key_lt_differs_at, lemma_key_lt_prefix, lemma_sorted_from_adjacent,
    strictly_sorted,
};
use crate::serde_bridge::{pretty_text, to_pretty_json};
use crate::timestamp::{file_stamp_text, rfc3339_text, Timestamp};

verus! {

/// What one capture gives.
#[derive(Clone, Debug, PartialEq)]
pub struct Capture {
    /// The path of the file that the document goes to.
    pub filename: String,
    /// The document, as indented JSON.
    pub contents: String,
    /// The hash of the schema.
    pub schema_hash: String,
    /// The lines that tell the user of the capture.
    pub report: Vec<String>,
}

/// What one capture gives, as mathematical text.
pub struct CaptureModel {
    pub filename: Seq<char>,
    pub contents: Seq<char>,
    pub schema_hash: Seq<char>,
    pub report: Seq<Seq<char>>,
}

/// The texts that `lines` hold, in their order.
pub open spec fn texts_of(lines: Seq<String>) -> Seq<Seq<char>> {
    Seq::new(lines.len(), |i: int| lines[i]@)
}

/// The text that an optional string holds.
pub open spec fn text_of(text: Option<String>) -> Option<Seq<char>> {
    match text {
        Some(t) => Some(t@),
        None => None,
    }
}

impl View for Capture {
    type V = CaptureModel;

    open spec fn view(&self) -> CaptureModel {
        CaptureModel {
            filename: self.filename@,
            contents: self.contents@,
            schema_hash: self.schema_hash@,
            report: texts_of(self.report@),
        }
    }
}

/// The note of a capture: the one given, or a fixed one.
pub open spec fn note_text_of(note: Option<Seq<char>>) -> Seq<char> {
    match note {
        Some(text) => text,
        None => "Schema capture"@,
    }
}

/// What a strategy adds to the file name: nothing for the structural one.
pub open spec fn strategy_suffix(use_schemars: bool) -> Seq<char> {
    if use_schemars {
        "_schemars"@
    } else {
        Seq::empty()
    }
}

/// The path of the file for a capture with the given stamp and strategy.
pub open spec fn schema_filename_text(stamp: Seq<char>, use_schemars: bool) -> Seq<char> {
    "tools/schema-tracker/schemas"@ + "/conversation_schema_"@ + stamp + strategy_suffix(use_schemars)
        + ".json"@
}

/// The document of a capture. A capture without a revision has `null` in the
/// revision's place.
pub open spec fn document_of(
    timestamp: Seq<char>,
    git_commit: Option<Seq<char>>,
    schema_hash: Seq<char>,
    note: Seq<char>,
    schema: JsonModel,
) -> JsonModel {
    JsonModel::Object(
        seq![
            (
                "git_commit"@,
                match git_commit {
                    Some(commit) => JsonModel::String(commit),
                    None => JsonModel::Null,
                },
            ),
            ("note"@, JsonModel::String(note)),
            ("schema"@, schema),
            ("schema_hash"@, JsonModel::String(schema_hash)),
            ("timestamp"@, JsonModel::String(timestamp)),
        ],
    )
}

/// The first `n` characters of a text, or all of a shorter one.
pub open spec fn leading(text: Seq<char>, n: int) -> Seq<char> {
    if text.len() <= n {
        text
    } else {
        text.take(n)
    }
}

/// How the report names a strategy.
pub open spec fn method_label(use_schemars: bool) -> Seq<char> {
    if use_schemars {
        "schemars (complete types)"@
    } else {
        "hybrid (type introspection)"@
    }
}

/// The lines that tell the user of a capture: the file, the first twelve
/// characters of the hash, the strategy, the first eight characters of the
/// revision if there is one, and the note if one was given.
pub open spec fn report_of(
    filename: Seq<char>,
    schema_hash: Seq<char>,
    use_schemars: bool,
    git_commit: Option<Seq<char>>,
    note: Option<Seq<char>>,
) -> Seq<Seq<char>> {
    seq![
        "✅ Schema captured: "@ + filename,
        "   Hash: "@ + leading(schema_hash, 12),
        "   Method: "@ + method_label(use_schemars),
    ] + match git_commit {
        Some(commit) => seq!["   Commit: "@ + leading(commit, 8)],
        None => Seq::empty(),
    } + match note {
        Some(text) => seq!["   Note: "@ + text],
        None => Seq::empty(),
    }
}

/// What a capture at the time `now` gives: the document with the schema, its
/// hash, the time, the revision and the note, written out; the file's name;
/// and the report.
pub open spec fn capture_of(
    note: Option<Seq<char>>,
    use_schemars: bool,
    schema: JsonModel,
    now: Timestamp,
    git_commit: Option<Seq<char>>,
) -> Result<CaptureModel, SchemaError> {
    match (rfc3339_text(now.secs, now.nanos), file_stamp_text(now.secs, now.nanos)) {
        (Some(timestamp), Some(stamp)) => {
            let schema_hash = schema_hash_text(schema);
            let filename = schema_filename_text(stamp, use_schemars);
            let document = document_of(timestamp, git_commit, schema_hash, note_text_of(note), schema);
            match pretty_text(document) {
                Some(contents) => Ok(
                    CaptureModel {
                        filename,
                        contents,
                        schema_hash,
                        report: report_of(filename, schema_hash, use_schemars, git_commit, note),
                    },
                ),
                None => Err(SchemaError::Serialization),
            }
        },
        _ => Err(SchemaError::InvalidTimestamp),
    }
}

/// The document of a capture holds each of its parts under the part's name.
pub proof fn lemma_document_fields(
    timestamp: Seq<char>,
    git_commit: Option<Seq<char>>,
    schema_hash: Seq<char>,
    note: Seq<char>,
    schema: JsonModel,
)
    ensures
        ({
            let document = document_of(timestamp, git_commit, schema_hash, note, schema);
            &&& field_of(document, "timestamp"@) == Some(JsonModel::String(timestamp))
            &&& field_of(document, "schema_hash"@) == Some(JsonModel::String(schema_hash))
            &&& field_of(document, "note"@) == Some(JsonModel::String(note))
            &&& field_of(document, "schema"@) == Some(schema)
            &&& field_of(document, "git_commit"@) == Some(
                match git_commit {
                    Some(commit) => JsonModel::String(commit),
                    None => JsonModel::Null,
                },
            )
        }),
{
    let entries = document_of(timestamp, git_commit, schema_hash, note, schema)->Object_0;
    lemma_document_keys_ordered();
    lemma_sorted_from_adjacent(keys_of(entries));
    lemma_lookup_index(entries, 0);
    lemma_lookup_index(entries, 1);
    lemma_lookup_index(entries, 2);
    lemma_lookup_index(entries, 3);
    lemma_lookup_index(entries, 4);
}

/// A capture for which no revision is known is made all the same, and its
/// document holds `null` in the revision's place.
pub proof fn lemma_capture_without_revision(
    note: Option<Seq<char>>,
    use_schemars: bool,
    schema: JsonModel,
    now: Timestamp,
)
    ensures
        ({
            let document = document_of(
                rfc3339_text(now.secs, now.nanos).unwrap(),
                None,
                schema_hash_text(schema),
                note_text_of(note),
                schema,
            );
            &&& field_of(document, "git_commit"@) == Some(JsonModel::Null)
            &&& capture_of(note, use_schemars, schema, now, None) is Ok <==> rfc3339_text(
                now.secs,
                now.nanos,
            ) is Some && file_stamp_text(now.secs, now.nanos) is Some && pretty_text(document) is Some
            &&& capture_of(note, use_schemars, schema, now, None) matches Ok(capture)
                ==> capture.contents == pretty_text(document).unwrap()
        }),
{
    lemma_document_fields(
        rfc3339_text(now.secs, now.nanos).unwrap(),
        None,
        schema_hash_text(schema),
        note_text_of(note),
        schema,
    );
}

/// The hash of a capture is that of its schema: captures of one schema have
/// one hash, whatever their times, notes, revisions and strategies are.
pub proof fn lemma_capture_hash_is_schema_hash(
    schema: JsonModel,
    first: (Option<Seq<char>>, bool, Timestamp, Option<Seq<char>>),
    second: (Option<Seq<char>>, bool, Timestamp, Option<Seq<char>>),
)
    ensures
        capture_of(first.0, first.1, schema, first.2, first.3) matches Ok(a) ==> a.schema_hash
            == schema_hash_text(schema),
        capture_of(first.0, first.1, schema, first.2, first.3) matches Ok(a) ==> (capture_of(
            second.0,
            second.1,
            schema,
            second.2,
            second.3,
        ) matches Ok(b) ==> a.schema_hash == b.schema_hash),
{
}

/// Two captures go to two files only if their stamps or their strategies
/// differ: captures of one second by one strategy go to one file, where the
/// later takes the place of the earlier.
pub proof fn lemma_same_stamp_same_file(
    first_stamp: Seq<char>,
    first_schemars: bool,
    second_stamp: Seq<char>,
    second_schemars: bool,
)
    ensures
        schema_filename_text(first_stamp, first_schemars) != schema_filename_text(
            second_stamp,
            second_schemars,
        ) ==> first_stamp != second_stamp || first_schemars != second_schemars,
        first_stamp == second_stamp && first_schemars == second_schemars ==> schema_filename_text(
            first_stamp,
            first_schemars,
        ) == schema_filename_text(second_stamp, second_schemars),
{
}

/// Captures made in one second by one strategy have one file name, whatever
/// their schemas, notes and revisions are.
pub proof fn lemma_captures_of_one_second_share_file(
    first: (Option<Seq<char>>, JsonModel, Timestamp, Option<Seq<char>>),
    second: (Option<Seq<char>>, JsonModel, Timestamp, Option<Seq<char>>),
    use_schemars: bool,
)
    requires
        file_stamp_text(first.2.secs, first.2.nanos) == file_stamp_text(second.2.secs, second.2.nanos),
    ensures
        capture_of(first.0, use_schemars, first.1, first.2, first.3) matches Ok(a) ==> (capture_of(
            second.0,
            use_schemars,
            second.1,
            second.2,
            second.3,
        ) matches Ok(b) ==> a.filename == b.filename),
{
}

/// Two stamps lead to one file name only in two ways: they are the same
/// stamp, written for the same strategy; or one of them, written for the
/// structural strategy, is the other followed by the suffix of the
/// declarative strategy. Stamps of one length, as those of two instants of
/// one era are, therefore lead to one file name only if stamp and strategy
/// are the same.
pub proof fn lemma_file_names_differ(
    first_stamp: Seq<char>,
    first_schemars: bool,
    second_stamp: Seq<char>,
    second_schemars: bool,
)
    requires
        schema_filename_text(first_stamp, first_schemars) == schema_filename_text(
            second_stamp,
            second_schemars,
        ),
    ensures
        first_stamp + strategy_suffix(first_schemars) == second_stamp + strategy_suffix(second_schemars),
        first_schemars == second_schemars ==> first_stamp == second_stamp,
        first_schemars && !second_schemars ==> second_stamp == first_stamp + "_schemars"@,
        !first_schemars && second_schemars ==> first_stamp == second_stamp + "_schemars"@,
        first_stamp.len() == second_stamp.len() ==> first_stamp == second_stamp && first_schemars
            == second_schemars,
{
    reveal_strlit("_schemars");
    let head = "tools/schema-tracker/schemas"@ + "/conversation_schema_"@;
    let a = schema_filename_text(first_stamp, first_schemars);
    let b = schema_filename_text(second_stamp, second_schemars);
    let x = first_stamp + strategy_suffix(first_schemars);
    let y = second_stamp + strategy_suffix(second_schemars);
    assert(a =~= head + x + ".json"@);
    assert(b =~= head + y + ".json"@);
    assert(a.len() == head.len() + x.len() + ".json"@.len());
    assert(b.len() == head.len() + y.len() + ".json"@.len());
    assert forall|i: int| 0 <= i < x.len() implies x[i] == y[i] by {
        assert(a[head.len() + i] == x[i]);
        assert(b[head.len() + i] == y[i]);
    }
    assert(x =~= y);
    if first_schemars == second_schemars {
        assert forall|i: int| 0 <= i < first_stamp.len() implies first_stamp[i] == second_stamp[i] by {
            assert(x[i] == first_stamp[i]);
            assert(y[i] == second_stamp[i]);
        }
        assert(first_stamp =~= second_stamp);
    } else if first_schemars {
        assert(second_stamp =~= y);
    } else {
        assert(first_stamp =~= x);
    }
}

/// What a capture by one of the two strategies gives at the time `now`: the
/// capture of the schema that the strategy makes of its source. The source of
/// the declarative strategy is the schema derived from the record's
/// declaration, that of the structural strategy an example of the record.
pub open spec fn capture_by_strategy_of(
    note: Option<Seq<char>>,
    use_schemars: bool,
    source: JsonModel,
    now: Timestamp,
    git_commit: Option<Seq<char>>,
) -> Result<CaptureModel, SchemaError> {
    let made = if use_schemars {
        declarative_schema(source, now)
    } else {
        structural_schema(source, now)
    };
    match made {
        Ok(schema) => capture_of(note, use_schemars, schema, now, git_commit),
        Err(e) => Err(e),
    }
}

/// Captures of one source by one strategy have one hash, at whatever times
/// they are made and whatever their notes and revisions are: the time that a
/// schema is marked with does not enter its hash.
pub proof fn lemma_hash_is_the_same_at_all_times(
    use_schemars: bool,
    source: JsonModel,
    first: (Option<Seq<char>>, Timestamp, Option<Seq<char>>),
    second: (Option<Seq<char>>, Timestamp, Option<Seq<char>>),
)
    requires
        source is Object ==> strictly_sorted(keys_of(source->Object_0)),
    ensures
        capture_by_strategy_of(first.0, use_schemars, source, first.1, first.2) matches Ok(a) ==> (
        capture_by_strategy_of(second.0, use_schemars, source, second.1, second.2) matches Ok(b)
            ==> a.schema_hash == b.schema_hash),
{
    let first_time = rfc3339_text(first.1.secs, first.1.nanos);
    let second_time = rfc3339_text(second.1.secs, second.1.nanos);
    if first_time is Some && second_time is Some {
        if use_schemars {
            lemma_marked_schema_hash_ignores_time(
                source,
                "schemars_complete_introspection"@,
                "Generated using schemars with copied types + JsonSchema derives"@,
                first_time.unwrap(),
                second_time.unwrap(),
            );
        } else if source is Object {
            lemma_structure_schema_sorted(source->Object_0);
            lemma_marked_schema_hash_ignores_time(
                structure_schema(source->Object_0),
                "type_introspection"@,
                "Generated through type introspection without upstream modifications"@,
                first_time.unwrap(),
                second_time.unwrap(),
            );
        }
    }
}

/// The directory of the archive.
pub fn schema_dir() -> (dir: &'static str)
    ensures
        dir@ == "tools/schema-tracker/schemas"@,
{
    "tools/schema-tracker/schemas"
}

/// The note of a capture: the one given, or a fixed one.
pub fn note_text(note: &Option<String>) -> (text: String)
    ensures
        text@ == note_text_of(text_of(*note)),
{
    match note {
        Some(text) => text.clone(),
        None => String::from_str("Schema capture"),
    }
}

/// The path of the file for a capture with the given stamp and strategy.
pub fn schema_filename(stamp: &str, use_schemars: bool) -> (path: String)
    ensures
        path@ == schema_filename_text(stamp@, use_schemars),
{
    let mut path = String::from_str(schema_dir());
    path.append("/conversation_schema_");
    path.append(stamp);
    if use_schemars {
        path.append("_schemars");
    }
    path.append(".json");
    assert(path@ =~= schema_filename_text(stamp@, use_schemars));
    path
}

/// The keys of a document stand in key order.
proof fn lemma_document_keys_ordered()
    ensures
        key_lt("git_commit"@, "note"@),
        key_lt("note"@, "schema"@),
        key_lt("schema"@, "schema_hash"@),
        key_lt("schema_hash"@, "timestamp"@),
{
    reveal_strlit("git_commit");
    reveal_strlit("note");
    reveal_strlit("schema");
    reveal_strlit("schema_hash");
    reveal_strlit("timestamp");
    lemma_key_lt_differs_at("git_commit"@, "note"@, 0);
    lemma_key_lt_differs_at("note"@, "schema"@, 0);
    lemma_key_lt_prefix("schema"@, "schema_hash"@);
    lemma_key_lt_differs_at("schema_hash"@, "timestamp"@, 0);
}

/// Puts a schema, its hash, the time, the revision and the note together as
/// the document of a capture.
pub fn assemble_document(
    timestamp: &str,
    git_commit: &Option<String>,
    schema_hash: &str,
    note: &str,
    schema: JsonValue,
) -> (document: JsonValue)
    ensures
        document@ == document_of(timestamp@, text_of(*git_commit), schema_hash@, note@, schema@),
        field_of(document@, "schema"@) == Some(schema@),
        field_of(document@, "schema_hash"@) == Some(JsonModel::String(schema_hash@)),
        *git_commit is None ==> field_of(document@, "git_commit"@) == Some(JsonModel::Null),
{
    proof {
        lemma_document_fields(timestamp@, text_of(*git_commit), schema_hash@, note@, schema@);
    }
    let commit = match git_commit {
        Some(commit) => JsonValue::String(commit.clone()),
        None => JsonValue::Null,
    };
    let mut map = JsonMap::new();
    proof {
        lemma_document_keys_ordered();
    }
    map.push_last(String::from_str("git_commit"), commit);
    map.push_last(String::from_str("note"), JsonValue::string(note));
    map.push_last(String::from_str("schema"), schema);
    map.push_last(String::from_str("schema_hash"), JsonValue::string(schema_hash));
    map.push_last(String::from_str("timestamp"), JsonValue::string(timestamp));
    assert(map@ =~= document_of(
        timestamp@,
        text_of(*git_commit),
        schema_hash@,
        note@,
        schema@,
    )->Object_0);
    JsonValue::Object(map)
}

/// The first `n` characters of a text, or all of a shorter one.
pub fn leading_text(text: &str, n: usize) -> (head: &str)
    ensures
        head@ == leading(text@, n as int),
{
    let len = text.unicode_len();
    if len <= n {
        text
    } else {
        text.substring_char(0, n)
    }
}

/// A line of a label and a text.
fn labelled(label: &str, text: &str) -> (line: String)
    ensures
        line@ == label@ + text@,
{
    let mut line = String::from_str(label);
    line.append(text);
    line
}

/// The lines that tell the user of a capture.
pub fn capture_report(
    filename: &str,
    schema_hash: &str,
    use_schemars: bool,
    git_commit: &Option<String>,
    note: &Option<String>,
) -> (report: Vec<String>)
    ensures
        texts_of(report@) == report_of(
            filename@,
            schema_hash@,
            use_schemars,
            text_of(*git_commit),
            text_of(*note),
        ),
{
    let mut report: Vec<String> = Vec::new();
    report.push(labelled("✅ Schema captured: ", filename));
    report.push(labelled("   Hash: ", leading_text(schema_hash, 12)));
    let method = if use_schemars {
        "schemars (complete types)"
    } else {
        "hybrid (type introspection)"
    };
    report.push(labelled("   Method: ", method));
    match git_commit {
        Some(commit) => {
            report.push(labelled("   Commit: ", leading_text(commit.as_str(), 8)));
        },
        None => {},
    }
    match note {
        Some(text) => {
            report.push(labelled("   Note: ", text.as_str()));
        },
        None => {},
    }
    assert(texts_of(report@) =~= report_of(
        filename@,
        schema_hash@,
        use_schemars,
        text_of(*git_commit),
        text_of(*note),
    ));
    report
}

/// Captures a schema at the time `now`: hashes it, puts it into a document
/// with the time, the revision and the note, and names the file that the
/// document goes to.
///
/// The capture fails where the numbers of `now` stand for no instant, and
/// where the document cannot be written out. That no revision is known does
/// not make it fail.
pub fn capture_schema(
    note: Option<String>,
    use_schemars: bool,
    schema: JsonValue,
    now: &Timestamp,
    git_commit: Option<String>,
) -> (result: Result<Capture, SchemaError>)
    ensures
        match result {
            Ok(capture) => capture_of(text_of(note), use_schemars, schema@, *now, text_of(git_commit))
                == Ok::<CaptureModel, SchemaError>(capture@),
            Err(e) => capture_of(text_of(note), use_schemars, schema@, *now, text_of(git_commit))
                == Err::<CaptureModel, SchemaError>(e),
        },
{
    let timestamp = match now.to_rfc3339() {
        Some(timestamp) => timestamp,
        None => {
            return Err(SchemaError::InvalidTimestamp);
        },
    };
    let stamp = match now.to_file_stamp() {
        Some(stamp) => stamp,
        None => {
            return Err(SchemaError::InvalidTimestamp);
        },
    };
    let schema_hash = calculate_schema_hash(&schema);
    let filename = schema_filename(stamp.as_str(), use_schemars);
    let document = assemble_document(
        timestamp.as_str(),
        &git_commit,
        schema_hash.as_str(),
        note_text(&note).as_str(),
        schema,
    );
    let contents = match to_pretty_json(&document) {
        Some(contents) => contents,
        None => {
            return Err(SchemaError::Serialization);
        },
    };
    let report = capture_report(
        filename.as_str(),
        schema_hash.as_str(),
        use_schemars,
        &git_commit,
        &note,
    );
    Ok(Capture { filename, contents, schema_hash, report })
}

/// Captures by one of the two strategies at the time `now`: makes the schema
/// of `source` as the strategy does, and captures it.
///
/// With `use_schemars` the source is the schema that was derived from the
/// record's declaration, and the capture bears the strategy's name in its
/// file name. Without it the source is an example of the record, which must
/// be an object. The capture fails where the schema cannot be made, and where
/// a capture of the schema fails.
pub fn capture_by_strategy(
    note: Option<String>,
    use_schemars: bool,
    source: JsonValue,
    now: &Timestamp,
    git_commit: Option<String>,
) -> (result: Result<Capture, SchemaError>)
    ensures
        match result {
            Ok(capture) => capture_by_strategy_of(
                text_of(note),
                use_schemars,
                source@,
                *now,
                text_of(git_commit),
            ) == Ok::<CaptureModel, SchemaError>(capture@),
            Err(e) => capture_by_strategy_of(
                text_of(note),
                use_schemars,
                source@,
                *now,
                text_of(git_commit),
            ) == Err::<CaptureModel, SchemaError>(e),
        },
{
    let made = if use_schemars {
        generate_schema_with_schemars(source, now)
    } else {
        generate_schema_from_actual_type(&source, now)
    };
    match made {
        Ok(schema) => capture_schema(note, use_schemars, schema, now, git_commit),
        Err(e) => Err(e),
    }
}

} // verus!
