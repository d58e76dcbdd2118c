//! JSON values as this library holds them.
//!
//! A [`JsonValue`] is a tree of plain Rust values. An object is a [`JsonMap`],
//! which keeps its entries in key order and holds each key once, so that two
//! values that describe the same JSON document are equal. The map is the
//! library's own because its values are: the map of `serde_json` holds values
//! of `serde_json` and no others. A number is carried as the
//! `serde_json::Number` it came as; the library asks of it only whether it is
//! an integer.

use vstd::prelude::*;
use crate::key_order::{key_lt, strictly_sorted};

verus! {

/// `serde_json::Number`, of which nothing is seen here but what the
/// declarations below say.
#[verifier::external_type_specification]
#[verifier::external_body]
pub struct ExNumber(serde_json::Number);

/// What a JSON number holds.
pub enum NumberModel {
    /// A non-negative integer.
    PosInt(u64),
    /// A negative integer.
    NegInt(i64),
    /// A finite double, by its IEEE 754 bit pattern.
    Float(u64),
}

/// The mathematical value of a JSON document.
pub enum JsonModel {
    Null,
    Bool(bool),
    Number(NumberModel),
    String(Seq<char>),
    Array(Seq<JsonModel>),
    /// The entries of an object, in key order.
    Object(Seq<(Seq<char>, JsonModel)>),
}

/// What the number `n` holds.
pub uninterp spec fn number_model(n: serde_json::Number) -> NumberModel;

/// `serde_json::Number::is_i64`: whether the number is an integer that fits
/// in an `i64`, which a double never is.
pub assume_specification[ serde_json::Number::is_i64 ](n: &serde_json::Number) -> (yes: bool)
    ensures
        yes == match number_model(*n) {
            NumberModel::PosInt(v) => v <= i64::MAX,
            NumberModel::NegInt(_) => true,
            NumberModel::Float(_) => false,
        },
;

/// `serde_json::Number::is_u64`: whether the number is a non-negative integer.
pub assume_specification[ serde_json::Number::is_u64 ](n: &serde_json::Number) -> (yes: bool)
    ensures
        yes == (number_model(*n) is PosInt),
;

/// `Clone` for `serde_json::Number`: the copy holds what the number holds.
pub assume_specification[ <serde_json::Number as Clone>::clone ](n: &serde_json::Number) -> (copy:
    serde_json::Number)
    ensures
        number_model(copy) == number_model(*n),
;

/// A JSON value.
#[derive(Debug, PartialEq)]
pub enum JsonValue {
    Null,
    Bool(bool),
    Number(serde_json::Number),
    String(String),
    Array(Vec<JsonValue>),
    Object(JsonMap),
}

/// The entries of a JSON object: each key once, in key order.
#[derive(Debug, PartialEq)]
pub struct JsonMap {
    entries: Vec<(String, JsonValue)>,
}

/// The value that `value` stands for.
pub open spec fn value_model(value: JsonValue) -> JsonModel
    decreases value,
{
    match value {
        JsonValue::Null => JsonModel::Null,
        JsonValue::Bool(b) => JsonModel::Bool(b),
        JsonValue::Number(n) => JsonModel::Number(number_model(n)),
        JsonValue::String(s) => JsonModel::String(s@),
        JsonValue::Array(items) => JsonModel::Array(items_model(items@)),
        JsonValue::Object(map) => JsonModel::Object(entries_model(map)),
    }
}

/// The values that `items` stand for, in their order.
pub open spec fn items_model(items: Seq<JsonValue>) -> Seq<JsonModel>
    decreases items,
{
    Seq::new(
        items.len(),
        |i: int|
            if 0 <= i < items.len() {
                value_model(items[i])
            } else {
                JsonModel::Null
            },
    )
}

/// The entries that `map` stands for, in key order.
pub closed spec fn entries_model(map: JsonMap) -> Seq<(Seq<char>, JsonModel)>
    decreases map,
{
    Seq::new(
        map.entries@.len(),
        |i: int|
            if 0 <= i < map.entries@.len() {
                (map.entries@[i].0@, value_model(map.entries@[i].1))
            } else {
                (Seq::empty(), JsonModel::Null)
            },
    )
}

impl View for JsonValue {
    type V = JsonModel;

    open spec fn view(&self) -> JsonModel {
        value_model(*self)
    }
}

impl View for JsonMap {
    type V = Seq<(Seq<char>, JsonModel)>;

    open spec fn view(&self) -> Seq<(Seq<char>, JsonModel)> {
        entries_model(*self)
    }
}

/// The keys of `entries`, in their order.
pub open spec fn keys_of(entries: Seq<(Seq<char>, JsonModel)>) -> Seq<Seq<char>> {
    Seq::new(entries.len(), |i: int| entries[i].0)
}

/// The value that the first entry under `key` holds, if there is one.
pub open spec fn lookup(entries: Seq<(Seq<char>, JsonModel)>, key: Seq<char>) -> Option<JsonModel>
    decreases entries.len(),
{
    if entries.len() == 0 {
        None
    } else if entries[0].0 == key {
        Some(entries[0].1)
    } else {
        lookup(entries.drop_first(), key)
    }
}

/// The position of the first entry whose key does not come before `key`:
/// where an entry under `key` stands, or is to stand, in sorted entries.
pub open spec fn insertion_point(entries: Seq<(Seq<char>, JsonModel)>, key: Seq<char>) -> int
    decreases entries.len(),
{
    if entries.len() == 0 || !key_lt(entries[0].0, key) {
        0
    } else {
        1 + insertion_point(entries.drop_first(), key)
    }
}

/// `entries` with `value` under `key`: in place of the value that was there,
/// or as a new entry where the key order puts it.
pub open spec fn insert_entry(
    entries: Seq<(Seq<char>, JsonModel)>,
    key: Seq<char>,
    value: JsonModel,
) -> Seq<(Seq<char>, JsonModel)> {
    let at = insertion_point(entries, key);
    if at < entries.len() && entries[at].0 == key {
        entries.update(at, (key, value))
    } else {
        entries.insert(at, (key, value))
    }
}

/// The insertion point is the one position that has only smaller keys before
/// it and no smaller key at it.
pub proof fn lemma_insertion_point_is(entries: Seq<(Seq<char>, JsonModel)>, key: Seq<char>, at: int)
    requires
        0 <= at <= entries.len(),
        forall|j: int| 0 <= j < at ==> key_lt(#[trigger] entries[j].0, key),
        at < entries.len() ==> !key_lt(entries[at].0, key),
    ensures
        insertion_point(entries, key) == at,
    decreases at,
{
    if at > 0 {
        let rest = entries.drop_first();
        assert forall|j: int| 0 <= j < at - 1 implies key_lt(#[trigger] rest[j].0, key) by {
            assert(rest[j] == entries[j + 1]);
        }
        lemma_insertion_point_is(rest, key, at - 1);
    }
}

/// In sorted entries a key is found at its insertion point or nowhere.
pub proof fn lemma_lookup_sorted(entries: Seq<(Seq<char>, JsonModel)>, key: Seq<char>)
    requires
        strictly_sorted(keys_of(entries)),
    ensures
        lookup(entries, key) == {
            let at = insertion_point(entries, key);
            if at < entries.len() && entries[at].0 == key {
                Some(entries[at].1)
            } else {
                None
            }
        },
        0 <= insertion_point(entries, key) <= entries.len(),
    decreases entries.len(),
{
    if entries.len() > 0 {
        let rest = entries.drop_first();
        assert forall|i: int, j: int| 0 <= i < j < keys_of(rest).len() implies key_lt(
            #[trigger] keys_of(rest)[i],
            #[trigger] keys_of(rest)[j],
        ) by {
            assert(keys_of(rest)[i] == keys_of(entries)[i + 1]);
            assert(keys_of(rest)[j] == keys_of(entries)[j + 1]);
        }
        lemma_lookup_sorted(rest, key);
        if entries[0].0 == key {
            crate::key_order::lemma_key_lt_irreflexive(key);
        } else if !key_lt(entries[0].0, key) {
            // Every later key is larger than the first, which is larger than `key`.
            crate::key_order::lemma_key_lt_total(entries[0].0, key);
            assert(keys_of(entries)[0] == entries[0].0);
            assert forall|j: int| 0 <= j < rest.len() implies key_lt(entries[0].0, #[trigger] rest[j].0) by {
                assert(keys_of(entries)[j + 1] == rest[j].0);
            }
            lemma_lookup_absent_above(rest, key, entries[0].0);
        } else {
            let at = insertion_point(rest, key);
            if at < rest.len() {
                assert(rest[at] == entries[at + 1]);
            }
        }
    }
}

/// A key is not found among entries whose keys all come after a key that
/// comes after it.
proof fn lemma_lookup_absent_above(entries: Seq<(Seq<char>, JsonModel)>, key: Seq<char>, bound: Seq<char>)
    requires
        key_lt(key, bound),
        forall|j: int| 0 <= j < entries.len() ==> key_lt(bound, #[trigger] entries[j].0),
    ensures
        lookup(entries, key) is None,
    decreases entries.len(),
{
    if entries.len() > 0 {
        crate::key_order::lemma_key_lt_transitive(key, bound, entries[0].0);
        crate::key_order::lemma_key_lt_asymmetric(key, entries[0].0);
        let rest = entries.drop_first();
        assert forall|j: int| 0 <= j < rest.len() implies key_lt(bound, #[trigger] rest[j].0) by {
            assert(rest[j] == entries[j + 1]);
        }
        lemma_lookup_absent_above(rest, key, bound);
    }
}

/// Before the insertion point stand only smaller keys, and none at it.
pub proof fn lemma_insertion_point_bounds(entries: Seq<(Seq<char>, JsonModel)>, key: Seq<char>)
    ensures
        0 <= insertion_point(entries, key) <= entries.len(),
        forall|j: int| 0 <= j < insertion_point(entries, key) ==> key_lt(#[trigger] entries[j].0, key),
        insertion_point(entries, key) < entries.len() ==> !key_lt(
            entries[insertion_point(entries, key)].0,
            key,
        ),
    decreases entries.len(),
{
    if entries.len() > 0 && key_lt(entries[0].0, key) {
        let rest = entries.drop_first();
        lemma_insertion_point_bounds(rest, key);
        let at = insertion_point(rest, key);
        assert forall|j: int| 0 <= j < at + 1 implies key_lt(#[trigger] entries[j].0, key) by {
            if j > 0 {
                assert(rest[j - 1] == entries[j]);
            }
        }
        if at < rest.len() {
            assert(rest[at] == entries[at + 1]);
        }
    }
}

/// Sorted entries stay sorted when a value is put under a key.
pub proof fn lemma_insert_entry_sorted(entries: Seq<(Seq<char>, JsonModel)>, key: Seq<char>, value: JsonModel)
    requires
        strictly_sorted(keys_of(entries)),
    ensures
        strictly_sorted(keys_of(insert_entry(entries, key, value))),
        lookup(insert_entry(entries, key, value), key) == Some(value),
{
    let at = insertion_point(entries, key);
    let after = insert_entry(entries, key, value);
    lemma_lookup_sorted(entries, key);
    lemma_insertion_point_bounds(entries, key);
    if at < entries.len() && entries[at].0 == key {
        assert(keys_of(after) =~= keys_of(entries));
    } else {
        assert forall|i: int, j: int| 0 <= i < j < keys_of(after).len() implies key_lt(
            #[trigger] keys_of(after)[i],
            #[trigger] keys_of(after)[j],
        ) by {
            if at < entries.len() {
                crate::key_order::lemma_key_lt_total(entries[at].0, key);
            }
            let ki = if i < at { keys_of(entries)[i] } else if i == at { key } else { keys_of(entries)[i - 1] };
            let kj = if j < at { keys_of(entries)[j] } else if j == at { key } else { keys_of(entries)[j - 1] };
            assert(keys_of(after)[i] == ki);
            assert(keys_of(after)[j] == kj);
            if i == at && j > at + 1 {
                assert(key_lt(keys_of(entries)[at], keys_of(entries)[j - 1]));
                crate::key_order::lemma_key_lt_transitive(key, entries[at].0, kj);
            }
        }
    }
    assert(after[at].0 == key);
    crate::key_order::lemma_key_lt_irreflexive(key);
    assert forall|j: int| 0 <= j < at implies key_lt(#[trigger] after[j].0, key) by {
        assert(after[j] == entries[j]);
    }
    lemma_insertion_point_is(after, key, at);
    lemma_lookup_sorted(after, key);
}

/// Under a key that comes after every key of sorted entries, a value is put
/// behind them.
pub proof fn lemma_insert_entry_last(entries: Seq<(Seq<char>, JsonModel)>, key: Seq<char>, value: JsonModel)
    requires
        strictly_sorted(keys_of(entries)),
        entries.len() == 0 || key_lt(entries.last().0, key),
    ensures
        insert_entry(entries, key, value) == entries.push((key, value)),
{
    assert forall|j: int| 0 <= j < entries.len() implies key_lt(#[trigger] entries[j].0, key) by {
        if j < entries.len() - 1 {
            assert(key_lt(keys_of(entries)[j], keys_of(entries)[entries.len() - 1]));
            crate::key_order::lemma_key_lt_transitive(entries[j].0, entries.last().0, key);
        }
    }
    lemma_insertion_point_is(entries, key, entries.len() as int);
    assert(entries.insert(entries.len() as int, (key, value)) =~= entries.push((key, value)));
}

/// In sorted entries each key leads to the value of its own entry.
pub proof fn lemma_lookup_index(entries: Seq<(Seq<char>, JsonModel)>, i: int)
    requires
        strictly_sorted(keys_of(entries)),
        0 <= i < entries.len(),
    ensures
        lookup(entries, entries[i].0) == Some(entries[i].1),
{
    let key = entries[i].0;
    crate::key_order::lemma_key_lt_irreflexive(key);
    assert forall|j: int| 0 <= j < i implies key_lt(#[trigger] entries[j].0, key) by {
        assert(key_lt(keys_of(entries)[j], keys_of(entries)[i]));
    }
    lemma_insertion_point_is(entries, key, i);
    lemma_lookup_sorted(entries, key);
}

/// In sorted entries a key leads to a value exactly where an entry holds the
/// value under the key.
pub proof fn lemma_lookup_iff_entry(entries: Seq<(Seq<char>, JsonModel)>, key: Seq<char>, value: JsonModel)
    requires
        strictly_sorted(keys_of(entries)),
    ensures
        lookup(entries, key) == Some(value) <==> exists|i: int|
            0 <= i < entries.len() && #[trigger] entries[i] == (key, value),
{
    lemma_lookup_sorted(entries, key);
    if lookup(entries, key) == Some(value) {
        let at = insertion_point(entries, key);
        assert(entries[at] == (key, value));
    }
    if exists|i: int| 0 <= i < entries.len() && #[trigger] entries[i] == (key, value) {
        let i = choose|i: int| 0 <= i < entries.len() && #[trigger] entries[i] == (key, value);
        lemma_lookup_index(entries, i);
    }
}

/// Putting a value under a key changes what that key leads to, and nothing
/// of what any other key leads to.
pub proof fn lemma_insert_entry_lookup(
    entries: Seq<(Seq<char>, JsonModel)>,
    key: Seq<char>,
    value: JsonModel,
    other: Seq<char>,
)
    requires
        strictly_sorted(keys_of(entries)),
    ensures
        lookup(insert_entry(entries, key, value), other) == if other == key {
            Some(value)
        } else {
            lookup(entries, other)
        },
{
    let after = insert_entry(entries, key, value);
    let at = insertion_point(entries, key);
    let replaced = at < entries.len() && entries[at].0 == key;
    lemma_insert_entry_sorted(entries, key, value);
    lemma_insertion_point_bounds(entries, key);
    if other != key {
        match lookup(entries, other) {
            Some(found) => {
                lemma_lookup_iff_entry(entries, other, found);
                let i = choose|i: int| 0 <= i < entries.len() && #[trigger] entries[i] == (other, found);
                let j = if replaced || i < at {
                    i
                } else {
                    i + 1
                };
                assert(after[j] == (other, found));
                lemma_lookup_iff_entry(after, other, found);
            },
            None => {
                if lookup(after, other) is Some {
                    let found = lookup(after, other).unwrap();
                    lemma_lookup_iff_entry(after, other, found);
                    let j = choose|j: int| 0 <= j < after.len() && #[trigger] after[j] == (other, found);
                    let i = if replaced || j < at {
                        j
                    } else {
                        j - 1
                    };
                    assert(entries[i] == (other, found));
                    lemma_lookup_iff_entry(entries, other, found);
                }
            },
        }
    }
}

/// `entries` without the entry under `key`, if there is one.
pub open spec fn remove_entry(entries: Seq<(Seq<char>, JsonModel)>, key: Seq<char>) -> Seq<
    (Seq<char>, JsonModel),
> {
    let at = insertion_point(entries, key);
    if at < entries.len() && entries[at].0 == key {
        entries.remove(at)
    } else {
        entries
    }
}

/// Sorted entries stay sorted without their first.
pub proof fn lemma_sorted_drop_first(entries: Seq<(Seq<char>, JsonModel)>)
    requires
        strictly_sorted(keys_of(entries)),
        entries.len() > 0,
    ensures
        strictly_sorted(keys_of(entries.drop_first())),
        lookup(entries.drop_first(), entries[0].0) is None,
{
    let rest = entries.drop_first();
    assert forall|i: int, j: int| 0 <= i < j < keys_of(rest).len() implies key_lt(
        #[trigger] keys_of(rest)[i],
        #[trigger] keys_of(rest)[j],
    ) by {
        assert(keys_of(rest)[i] == keys_of(entries)[i + 1]);
        assert(keys_of(rest)[j] == keys_of(entries)[j + 1]);
    }
    if lookup(rest, entries[0].0) is Some {
        let found = lookup(rest, entries[0].0).unwrap();
        lemma_lookup_iff_entry(rest, entries[0].0, found);
        let j = choose|j: int| 0 <= j < rest.len() && #[trigger] rest[j] == (entries[0].0, found);
        assert(key_lt(keys_of(entries)[0], keys_of(entries)[j + 1]));
        crate::key_order::lemma_key_lt_irreflexive(entries[0].0);
    }
}

/// Sorted entries stay sorted when the entry under a key is taken out. The
/// key then leads to nothing, and every other key to what it led to.
pub proof fn lemma_remove_entry(entries: Seq<(Seq<char>, JsonModel)>, key: Seq<char>, other: Seq<char>)
    requires
        strictly_sorted(keys_of(entries)),
    ensures
        strictly_sorted(keys_of(remove_entry(entries, key))),
        lookup(remove_entry(entries, key), other) == if other == key {
            None
        } else {
            lookup(entries, other)
        },
{
    let after = remove_entry(entries, key);
    let at = insertion_point(entries, key);
    lemma_insertion_point_bounds(entries, key);
    let removed = at < entries.len() && entries[at].0 == key;
    assert forall|i: int, j: int| 0 <= i < j < keys_of(after).len() implies key_lt(
        #[trigger] keys_of(after)[i],
        #[trigger] keys_of(after)[j],
    ) by {
        let from_i = if removed && i >= at { i + 1 } else { i };
        let from_j = if removed && j >= at { j + 1 } else { j };
        assert(keys_of(after)[i] == keys_of(entries)[from_i]);
        assert(keys_of(after)[j] == keys_of(entries)[from_j]);
    }
    match lookup(after, other) {
        Some(found) => {
            lemma_lookup_iff_entry(after, other, found);
            let j = choose|j: int| 0 <= j < after.len() && #[trigger] after[j] == (other, found);
            let i = if removed && j >= at { j + 1 } else { j };
            assert(entries[i] == (other, found));
            lemma_lookup_iff_entry(entries, other, found);
            if other == key {
                crate::key_order::lemma_key_lt_irreflexive(key);
                if removed {
                    if i < at {
                        assert(key_lt(keys_of(entries)[i], keys_of(entries)[at]));
                    } else {
                        assert(key_lt(keys_of(entries)[at], keys_of(entries)[i]));
                    }
                } else {
                    lemma_lookup_sorted(entries, key);
                }
            }
        },
        None => {
            if other != key && lookup(entries, other) is Some {
                let found = lookup(entries, other).unwrap();
                lemma_lookup_iff_entry(entries, other, found);
                let i = choose|i: int| 0 <= i < entries.len() && #[trigger] entries[i] == (other, found);
                let j = if removed && i > at { i - 1 } else { i };
                assert(after[j] == (other, found));
                lemma_lookup_iff_entry(after, other, found);
            }
        },
    }
}

/// Sorted entries are told apart by what their keys lead to: two that agree
/// on every key are the same.
pub proof fn lemma_sorted_entries_equal(first: Seq<(Seq<char>, JsonModel)>, second: Seq<(Seq<char>, JsonModel)>)
    requires
        strictly_sorted(keys_of(first)),
        strictly_sorted(keys_of(second)),
        forall|key: Seq<char>| lookup(first, key) == lookup(second, key),
    ensures
        first == second,
    decreases first.len(),
{
    if first.len() == 0 {
        if second.len() > 0 {
            assert(lookup(first, second[0].0) == lookup(second, second[0].0));
        }
        assert(first =~= second);
    } else {
        assert(lookup(first, first[0].0) == lookup(second, first[0].0));
        assert(second.len() > 0);
        assert(lookup(first, second[0].0) == lookup(second, second[0].0));
        if first[0].0 != second[0].0 {
            lemma_lookup_iff_entry(second, first[0].0, first[0].1);
            let j = choose|j: int| 0 <= j < second.len() && #[trigger] second[j] == (first[0].0, first[0].1);
            assert(key_lt(keys_of(second)[0], keys_of(second)[j]));
            lemma_lookup_iff_entry(first, second[0].0, second[0].1);
            let i = choose|i: int| 0 <= i < first.len() && #[trigger] first[i] == (second[0].0, second[0].1);
            assert(key_lt(keys_of(first)[0], keys_of(first)[i]));
            crate::key_order::lemma_key_lt_asymmetric(first[0].0, second[0].0);
        }
        lemma_sorted_drop_first(first);
        lemma_sorted_drop_first(second);
        assert forall|key: Seq<char>| lookup(first.drop_first(), key) == lookup(second.drop_first(), key) by {
            assert(lookup(first, key) == lookup(second, key));
        }
        lemma_sorted_entries_equal(first.drop_first(), second.drop_first());
        assert(first =~= seq![first[0]] + first.drop_first());
        assert(second =~= seq![second[0]] + second.drop_first());
    }
}

impl JsonMap {
    /// The keys stand in strictly increasing order: true of every map.
    #[verifier::type_invariant]
    pub open spec fn sorted(&self) -> bool {
        strictly_sorted(keys_of(self@))
    }

    /// An object without entries.
    pub fn new() -> (map: JsonMap)
        ensures
            map@ == Seq::<(Seq<char>, JsonModel)>::empty(),
    {
        let map = JsonMap { entries: Vec::new() };
        assert(map@ =~= Seq::<(Seq<char>, JsonModel)>::empty());
        map
    }

    /// How many entries the object has.
    pub fn len(&self) -> (n: usize)
        ensures
            n == self@.len(),
    {
        self.entries.len()
    }

    /// Whether the object has no entry.
    pub fn is_empty(&self) -> (empty: bool)
        ensures
            empty == (self@.len() == 0),
    {
        self.entries.len() == 0
    }

    /// The entry at position `i` of the key order, if the object has that many.
    pub fn entry_at(&self, i: usize) -> (entry: Option<(&String, &JsonValue)>)
        ensures
            match entry {
                Some((key, value)) => i < self@.len() && key@ == self@[i as int].0 && value@
                    == self@[i as int].1 && decreases_to!(*self => *value),
                None => i >= self@.len(),
            },
    {
        if i < self.entries.len() {
            Some((&self.entries[i].0, &self.entries[i].1))
        } else {
            None
        }
    }

    /// Puts `value` under `key` and hands back the value that was there.
    pub fn insert(&mut self, key: String, value: JsonValue) -> (previous: Option<JsonValue>)
        ensures
            final(self)@ == insert_entry(old(self)@, key@, value@),
            match previous {
                Some(v) => lookup(old(self)@, key@) == Some(v@),
                None => lookup(old(self)@, key@) is None,
            },
    {
        proof {
            use_type_invariant(&*self);
            lemma_lookup_sorted(self@, key@);
        }
        let mut entries: Vec<(String, JsonValue)> = Vec::new();
        core::mem::swap(&mut self.entries, &mut entries);
        let ghost before = old(self)@;
        assert(before =~= entries_model(JsonMap { entries }));
        let n = entries.len();
        let mut at: usize = 0;
        while at < n && crate::key_order::key_less(entries[at].0.as_str(), key.as_str())
            invariant
                n == entries@.len(),
                n == before.len(),
                at <= n,
                forall|j: int| 0 <= j < n ==> (#[trigger] before[j]).0 == entries@[j].0@,
                forall|j: int| 0 <= j < at ==> key_lt(#[trigger] before[j].0, key@),
            decreases n - at,
        {
            at += 1;
        }
        proof {
            lemma_insertion_point_is(before, key@, at as int);
            lemma_insert_entry_sorted(before, key@, value@);
        }
        let ghost after = insert_entry(before, key@, value@);
        if at < n && entries[at].0 == key {
            let old_entry = entries.remove(at);
            entries.insert(at, (key, value));
            assert(entries_model(JsonMap { entries }) =~= after);
            self.entries = entries;
            Some(old_entry.1)
        } else {
            entries.insert(at, (key, value));
            assert(entries_model(JsonMap { entries }) =~= after);
            self.entries = entries;
            None
        }
    }

    /// Takes out the entry under `key`, if there is one, and hands back its
    /// value.
    pub fn remove(&mut self, key: &str) -> (removed: Option<JsonValue>)
        ensures
            final(self)@ == remove_entry(old(self)@, key@),
            match removed {
                Some(v) => lookup(old(self)@, key@) == Some(v@),
                None => lookup(old(self)@, key@) is None,
            },
    {
        proof {
            use_type_invariant(&*self);
            lemma_lookup_sorted(self@, key@);
            lemma_remove_entry(self@, key@, key@);
        }
        let mut entries: Vec<(String, JsonValue)> = Vec::new();
        core::mem::swap(&mut self.entries, &mut entries);
        let ghost before = old(self)@;
        assert(before =~= entries_model(JsonMap { entries }));
        let n = entries.len();
        let mut at: usize = 0;
        while at < n && crate::key_order::key_less(entries[at].0.as_str(), key)
            invariant
                n == entries@.len(),
                n == before.len(),
                at <= n,
                forall|j: int| 0 <= j < n ==> (#[trigger] before[j]).0 == entries@[j].0@,
                forall|j: int| 0 <= j < at ==> key_lt(#[trigger] before[j].0, key@),
            decreases n - at,
        {
            at += 1;
        }
        proof {
            lemma_insertion_point_is(before, key@, at as int);
        }
        let ghost after = remove_entry(before, key@);
        if at < n && crate::key_order::key_equal(entries[at].0.as_str(), key) {
            let taken = entries.remove(at);
            assert(entries_model(JsonMap { entries }) =~= after);
            self.entries = entries;
            Some(taken.1)
        } else {
            assert(entries_model(JsonMap { entries }) =~= after);
            self.entries = entries;
            None
        }
    }

    /// Puts `value` under a `key` that comes after every key of the map.
    pub(crate) fn push_last(&mut self, key: String, value: JsonValue)
        requires
            old(self)@.len() == 0 || key_lt(old(self)@.last().0, key@),
        ensures
            final(self)@ == old(self)@.push((key@, value@)),
    {
        proof {
            use_type_invariant(&*self);
            lemma_insert_entry_last(self@, key@, value@);
        }
        self.insert(key, value);
    }

    /// The value under `key`, if the object has one.
    pub fn get(&self, key: &str) -> (found: Option<&JsonValue>)
        ensures
            match found {
                Some(value) => lookup(self@, key@) == Some(value@) && decreases_to!(*self => *value),
                None => lookup(self@, key@) is None,
            },
    {
        let n = self.entries.len();
        let mut i: usize = 0;
        assert(self@.skip(0) =~= self@);
        while i < n
            invariant
                n == self.entries@.len(),
                i <= n,
                lookup(self@, key@) == lookup(self@.skip(i as int), key@),
            decreases n - i,
        {
            if crate::key_order::key_equal(self.entries[i].0.as_str(), key) {
                assert(self@.skip(i as int)[0] == self@[i as int]);
                return Some(&self.entries[i].1);
            }
            assert(self@.skip(i as int)[0] == self@[i as int]);
            assert(self@.skip(i as int).drop_first() =~= self@.skip(i as int + 1));
            i += 1;
        }
        None
    }

    /// Whether the object has an entry under `key`.
    pub fn contains_key(&self, key: &str) -> (present: bool)
        ensures
            present == lookup(self@, key@).is_some(),
    {
        self.get(key).is_some()
    }
}

impl Clone for JsonMap {
    /// A copy that stands for the same entries.
    fn clone(&self) -> (copy: JsonMap)
        ensures
            copy@ == self@,
        decreases self,
    {
        proof {
            use_type_invariant(self);
        }
        let mut entries: Vec<(String, JsonValue)> = Vec::new();
        let n = self.entries.len();
        let mut i: usize = 0;
        while i < n
            invariant
                n == self.entries@.len(),
                i <= n,
                entries@.len() == i,
                forall|j: int| 0 <= j < i ==> (#[trigger] entries@[j]).0@ == self.entries@[j].0@,
                forall|j: int| 0 <= j < i ==> (#[trigger] entries@[j]).1@ == self.entries@[j].1@,
            decreases n - i,
        {
            let key = self.entries[i].0.clone();
            let value = self.entries[i].1.clone();
            entries.push((key, value));
            i += 1;
        }
        assert(entries_model(JsonMap { entries }) =~= self@);
        JsonMap { entries }
    }
}

impl Clone for JsonValue {
    /// A copy that stands for the same value.
    #[verifier::loop_isolation(false)]
    fn clone(&self) -> (copy: JsonValue)
        ensures
            copy@ == self@,
        decreases self,
    {
        match self {
            JsonValue::Null => JsonValue::Null,
            JsonValue::Bool(b) => JsonValue::Bool(*b),
            JsonValue::Number(n) => JsonValue::Number(n.clone()),
            JsonValue::String(s) => JsonValue::String(s.clone()),
            JsonValue::Array(items) => {
                let mut copies: Vec<JsonValue> = Vec::new();
                let n = items.len();
                let mut i: usize = 0;
                while i < n
                    invariant
                        n == items@.len(),
                        i <= n,
                        copies@.len() == i,
                        forall|j: int| 0 <= j < i ==> (#[trigger] copies@[j])@ == items@[j]@,
                    decreases n - i,
                {
                    let item = items[i].clone();
                    copies.push(item);
                    i += 1;
                }
                assert(items_model(copies@) =~= items_model(items@));
                JsonValue::Array(copies)
            },
            JsonValue::Object(map) => JsonValue::Object(map.clone()),
        }
    }
}

impl JsonValue {
    /// The JSON string that holds `text`.
    pub fn string(text: &str) -> (value: JsonValue)
        ensures
            value@ == JsonModel::String(text@),
    {
        JsonValue::String(String::from_str(text))
    }

    /// Whether the value is `null`.
    pub fn is_null(&self) -> (null: bool)
        ensures
            null == (self@ is Null),
    {
        match self {
            JsonValue::Null => true,
            _ => false,
        }
    }

    /// The entries of the value, if it is an object.
    pub fn as_object(&self) -> (object: Option<&JsonMap>)
        ensures
            match object {
                Some(map) => self@ == JsonModel::Object(map@),
                None => !(self@ is Object),
            },
    {
        match self {
            JsonValue::Object(map) => Some(map),
            _ => None,
        }
    }

    /// The items of the value, if it is an array.
    pub fn as_array(&self) -> (array: Option<&Vec<JsonValue>>)
        ensures
            match array {
                Some(items) => self@ == JsonModel::Array(items_model(items@)),
                None => !(self@ is Array),
            },
    {
        match self {
            JsonValue::Array(items) => Some(items),
            _ => None,
        }
    }

    /// The text of the value, if it is a string.
    pub fn as_str(&self) -> (text: Option<&str>)
        ensures
            match text {
                Some(t) => self@ == JsonModel::String(t@),
                None => !(self@ is String),
            },
    {
        match self {
            JsonValue::String(s) => Some(s.as_str()),
            _ => None,
        }
    }

    /// The value under `key`, if the value is an object that has one.
    pub fn get(&self, key: &str) -> (found: Option<&JsonValue>)
        ensures
            match found {
                Some(value) => field_of(self@, key@) == Some(value@),
                None => field_of(self@, key@) is None,
            },
    {
        match self {
            JsonValue::Object(map) => map.get(key),
            _ => None,
        }
    }
}

/// The value that an object holds under `key`; nothing for what is no object.
pub open spec fn field_of(value: JsonModel, key: Seq<char>) -> Option<JsonModel> {
    match value {
        JsonModel::Object(entries) => lookup(entries, key),
        _ => None,
    }
}

} // verus!
