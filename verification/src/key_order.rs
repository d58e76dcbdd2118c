//! The order in which the keys of a JSON object are kept.
//!
//! Keys are ordered as Rust orders strings: character by character, by code
//! point, a proper prefix coming before any of its extensions.

use vstd::prelude::*;

verus! {

/// `a` comes strictly before `b`.
pub open spec fn key_lt(a: Seq<char>, b: Seq<char>) -> bool
    decreases a.len(),
{
    if b.len() == 0 {
        false
    } else if a.len() == 0 {
        true
    } else if a[0] == b[0] {
        key_lt(a.drop_first(), b.drop_first())
    } else {
        (a[0] as u32) < (b[0] as u32)
    }
}

/// Every key stands strictly before all the keys behind it.
pub open spec fn strictly_sorted(keys: Seq<Seq<char>>) -> bool {
    forall|i: int, j: int| 0 <= i < j < keys.len() ==> key_lt(#[trigger] keys[i], #[trigger] keys[j])
}

/// No key comes before itself.
pub proof fn lemma_key_lt_irreflexive(a: Seq<char>)
    ensures
        !key_lt(a, a),
    decreases a.len(),
{
    if a.len() > 0 {
        lemma_key_lt_irreflexive(a.drop_first());
    }
}

/// The order is transitive.
pub proof fn lemma_key_lt_transitive(a: Seq<char>, b: Seq<char>, c: Seq<char>)
    requires
        key_lt(a, b),
        key_lt(b, c),
    ensures
        key_lt(a, c),
    decreases a.len(),
{
    if a.len() > 0 && a[0] == b[0] && b[0] == c[0] {
        lemma_key_lt_transitive(a.drop_first(), b.drop_first(), c.drop_first());
    }
}

/// Two different keys are ordered one way or the other.
pub proof fn lemma_key_lt_total(a: Seq<char>, b: Seq<char>)
    requires
        a != b,
    ensures
        key_lt(a, b) || key_lt(b, a),
    decreases a.len(),
{
    if a.len() > 0 && b.len() > 0 && a[0] == b[0] {
        if a.drop_first() == b.drop_first() {
            assert(a =~= seq![a[0]] + a.drop_first());
            assert(b =~= seq![b[0]] + b.drop_first());
        }
        lemma_key_lt_total(a.drop_first(), b.drop_first());
    } else if a.len() == 0 && b.len() == 0 {
        assert(a =~= b);
    } else if a.len() > 0 && b.len() > 0 {
        vstd::utf8::char_u32_cast(a[0], a[0] as u32);
        vstd::utf8::char_u32_cast(b[0], b[0] as u32);
    }
}

/// Two keys are never ordered both ways.
pub proof fn lemma_key_lt_asymmetric(a: Seq<char>, b: Seq<char>)
    requires
        key_lt(a, b),
    ensures
        !key_lt(b, a),
        a != b,
{
    lemma_key_lt_irreflexive(a);
    if key_lt(b, a) {
        lemma_key_lt_transitive(a, b, a);
    }
}

/// Where two keys agree on their first `k` characters, what follows decides.
pub proof fn lemma_key_lt_after_common_prefix(a: Seq<char>, b: Seq<char>, k: int)
    requires
        0 <= k <= a.len(),
        k <= b.len(),
        forall|i: int| 0 <= i < k ==> a[i] == b[i],
    ensures
        key_lt(a, b) == key_lt(a.skip(k), b.skip(k)),
    decreases k,
{
    if k == 0 {
        assert(a.skip(0) =~= a);
        assert(b.skip(0) =~= b);
    } else {
        assert(a[0] == b[0]);
        lemma_key_lt_after_common_prefix(a.drop_first(), b.drop_first(), k - 1);
        assert(a.drop_first().skip(k - 1) =~= a.skip(k));
        assert(b.drop_first().skip(k - 1) =~= b.skip(k));
    }
}

/// Where two keys first differ at position `k`, the characters there decide.
pub proof fn lemma_key_lt_differs_at(a: Seq<char>, b: Seq<char>, k: int)
    requires
        0 <= k < a.len(),
        k < b.len(),
        forall|i: int| 0 <= i < k ==> a[i] == b[i],
        a[k] != b[k],
    ensures
        key_lt(a, b) == ((a[k] as u32) < (b[k] as u32)),
{
    lemma_key_lt_after_common_prefix(a, b, k);
}

/// A key comes before each of its proper extensions, and after none of its prefixes.
pub proof fn lemma_key_lt_prefix(a: Seq<char>, b: Seq<char>)
    requires
        a.len() <= b.len(),
        forall|i: int| 0 <= i < a.len() ==> a[i] == b[i],
    ensures
        key_lt(a, b) == (a.len() < b.len()),
        !key_lt(b, a),
{
    lemma_key_lt_after_common_prefix(a, b, a.len() as int);
    lemma_key_lt_after_common_prefix(b, a, a.len() as int);
}

/// Keys of which each comes before the next are strictly sorted.
pub proof fn lemma_sorted_from_adjacent(keys: Seq<Seq<char>>)
    requires
        forall|i: int| 0 <= i < keys.len() - 1 ==> key_lt(#[trigger] keys[i], keys[i + 1]),
    ensures
        strictly_sorted(keys),
{
    assert forall|i: int, j: int| 0 <= i < j < keys.len() implies key_lt(
        #[trigger] keys[i],
        #[trigger] keys[j],
    ) by {
        lemma_adjacent_reaches(keys, i, j);
    }
}

/// Through keys of which each comes before the next, a key comes before every
/// later one.
proof fn lemma_adjacent_reaches(keys: Seq<Seq<char>>, i: int, j: int)
    requires
        forall|k: int| 0 <= k < keys.len() - 1 ==> key_lt(#[trigger] keys[k], keys[k + 1]),
        0 <= i < j < keys.len(),
    ensures
        key_lt(keys[i], keys[j]),
    decreases j - i,
{
    if j > i + 1 {
        lemma_adjacent_reaches(keys, i, j - 1);
        assert(key_lt(keys[j - 1], keys[j - 1 + 1]));
        lemma_key_lt_transitive(keys[i], keys[j - 1], keys[j]);
    }
}

/// Decides whether `a` comes strictly before `b`.
pub fn key_less(a: &str, b: &str) -> (less: bool)
    ensures
        less == key_lt(a@, b@),
{
    let n = a.unicode_len();
    let m = b.unicode_len();
    let mut i: usize = 0;
    while i < n && i < m
        invariant
            n == a@.len(),
            m == b@.len(),
            i <= n,
            i <= m,
            forall|j: int| 0 <= j < i ==> a@[j] == b@[j],
        decreases n - i,
    {
        let ca = a.get_char(i);
        let cb = b.get_char(i);
        if ca != cb {
            proof {
                lemma_key_lt_differs_at(a@, b@, i as int);
            }
            return (ca as u32) < (cb as u32);
        }
        i += 1;
    }
    proof {
        if i == n {
            lemma_key_lt_prefix(a@, b@);
        } else {
            lemma_key_lt_prefix(b@, a@);
        }
    }
    i < m
}

/// Decides whether two keys are the same.
pub fn key_equal(a: &str, b: &str) -> (same: bool)
    ensures
        same == (a@ == b@),
{
    proof {
        if a@ != b@ {
            lemma_key_lt_total(a@, b@);
        } else {
            lemma_key_lt_irreflexive(a@);
        }
    }
    !key_less(a, b) && !key_less(b, a)
}

} // verus!
