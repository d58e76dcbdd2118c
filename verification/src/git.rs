//! The revision that a capture is stamped with.
//!
//! The revision comes from a command that the caller runs. What the command
//! printed counts only if it ended well and printed text; a capture goes on
//! without a revision where it did not.

use vstd::prelude::*;
use vstd::utf8::{decode_utf8, valid_utf8};

verus! {

/// Whether a character is whitespace: whether it has the Unicode property
/// `White_Space`.
pub open spec fn is_white_space(c: char) -> bool {
    let code = c as u32;
    ||| 0x09 <= code <= 0x0D
    ||| code == 0x20
    ||| code == 0x85
    ||| code == 0xA0
    ||| code == 0x1680
    ||| 0x2000 <= code <= 0x200A
    ||| code == 0x2028
    ||| code == 0x2029
    ||| code == 0x202F
    ||| code == 0x205F
    ||| code == 0x3000
}

/// How many whitespace characters a text begins with.
pub open spec fn leading_white_space(text: Seq<char>) -> int
    decreases text.len(),
{
    if text.len() == 0 || !is_white_space(text[0]) {
        0
    } else {
        1 + leading_white_space(text.drop_first())
    }
}

/// How many whitespace characters a text ends with.
pub open spec fn trailing_white_space(text: Seq<char>) -> int
    decreases text.len(),
{
    if text.len() == 0 || !is_white_space(text.last()) {
        0
    } else {
        1 + trailing_white_space(text.drop_last())
    }
}

/// A text without the whitespace at its two ends: what stands from its first
/// to its last character that is no whitespace, and nothing where it has no
/// such character.
pub open spec fn trimmed(text: Seq<char>) -> Seq<char> {
    let start = leading_white_space(text);
    if start >= text.len() {
        Seq::empty()
    } else {
        text.subrange(start, text.len() - trailing_white_space(text))
    }
}

/// A text begins with no more whitespace than it has characters, and what
/// stands behind that whitespace is no whitespace.
pub proof fn lemma_leading_white_space(text: Seq<char>)
    ensures
        0 <= leading_white_space(text) <= text.len(),
        leading_white_space(text) < text.len() ==> !is_white_space(text[leading_white_space(text)]),
        forall|i: int| 0 <= i < leading_white_space(text) ==> is_white_space(#[trigger] text[i]),
    decreases text.len(),
{
    if text.len() > 0 && is_white_space(text[0]) {
        let rest = text.drop_first();
        lemma_leading_white_space(rest);
        let n = leading_white_space(rest);
        if n < rest.len() {
            assert(rest[n] == text[n + 1]);
        }
        assert forall|i: int| 0 <= i < n + 1 implies is_white_space(#[trigger] text[i]) by {
            if i > 0 {
                assert(rest[i - 1] == text[i]);
            }
        }
    }
}

/// A text ends with no more whitespace than it has characters, and what
/// stands before that whitespace is no whitespace.
pub proof fn lemma_trailing_white_space(text: Seq<char>)
    ensures
        0 <= trailing_white_space(text) <= text.len(),
        trailing_white_space(text) < text.len() ==> !is_white_space(
            text[text.len() - trailing_white_space(text) - 1],
        ),
        forall|i: int|
            text.len() - trailing_white_space(text) <= i < text.len() ==> is_white_space(#[trigger] text[i]),
    decreases text.len(),
{
    if text.len() > 0 && is_white_space(text.last()) {
        let rest = text.drop_last();
        lemma_trailing_white_space(rest);
        let n = trailing_white_space(rest);
        if n < rest.len() {
            assert(rest[rest.len() - n - 1] == text[text.len() - (n + 1) - 1]);
        }
        assert forall|i: int| text.len() - (n + 1) <= i < text.len() implies is_white_space(
            #[trigger] text[i],
        ) by {
            if i < text.len() - 1 {
                assert(rest[i] == text[i]);
            }
        }
    }
}

/// A trimmed text neither begins nor ends with whitespace, and is a stretch
/// of the text it was made of. A text of whitespace alone, and the text
/// without characters, leave nothing.
pub proof fn lemma_trimmed(text: Seq<char>)
    ensures
        trimmed(text).len() > 0 ==> !is_white_space(trimmed(text).first()) && !is_white_space(
            trimmed(text).last(),
        ),
        trimmed(text).len() + leading_white_space(text) <= text.len(),
        forall|i: int|
            0 <= i < trimmed(text).len() ==> #[trigger] trimmed(text)[i] == text[leading_white_space(text) + i],
        (forall|i: int| 0 <= i < text.len() ==> is_white_space(#[trigger] text[i])) ==> trimmed(text).len() == 0,
        text.len() > 0 && !is_white_space(text.first()) && !is_white_space(text.last()) ==> trimmed(text) == text,
{
    lemma_leading_white_space(text);
    lemma_trailing_white_space(text);
    let start = leading_white_space(text);
    let end = text.len() - trailing_white_space(text);
    if start < text.len() {
        // The first character that is no whitespace stands before the
        // whitespace at the end.
        if end <= start {
            assert(is_white_space(text[start]));
        }
        assert(trimmed(text).first() == text[start]);
        assert(trimmed(text).last() == text[end - 1]);
    }
    if text.len() > 0 && !is_white_space(text.first()) && !is_white_space(text.last()) {
        assert(trimmed(text) =~= text);
    }
}

/// `String::from_utf8`: the text that the bytes encode, `None` where they are
/// not UTF-8.
#[verifier::external_body]
fn utf8_text(bytes: Vec<u8>) -> (text: Option<String>)
    ensures
        match text {
            Some(t) => valid_utf8(bytes@) && t@ == decode_utf8(bytes@),
            None => !valid_utf8(bytes@),
        },
{
    String::from_utf8(bytes).ok()
}

/// `str::trim`: the text without the whitespace at its two ends, whitespace
/// being the characters of the Unicode property `White_Space`.
#[verifier::external_body]
fn trim_text(text: &str) -> (inner: &str)
    ensures
        inner@ == trimmed(text@),
{
    text.trim()
}

/// The revision that a command's output names, if the command ended well and
/// printed UTF-8.
pub open spec fn git_commit_of(succeeded: bool, stdout: Seq<u8>) -> Option<Seq<char>> {
    if succeeded && valid_utf8(stdout) {
        Some(trimmed(decode_utf8(stdout)))
    } else {
        None
    }
}

/// Reads the current revision off the outcome of the revision command: what
/// it printed, without the whitespace around it. A command that failed, or
/// that printed something other than UTF-8, names no revision.
pub fn get_git_commit(succeeded: bool, stdout: Vec<u8>) -> (commit: Option<String>)
    ensures
        match commit {
            Some(c) => git_commit_of(succeeded, stdout@) == Some(c@),
            None => git_commit_of(succeeded, stdout@) is None,
        },
        !succeeded ==> commit is None,
        commit matches Some(c) ==> c@.len() == 0 || (!is_white_space(c@.first()) && !is_white_space(
            c@.last(),
        )),
{
    proof {
        if valid_utf8(stdout@) {
            lemma_trimmed(decode_utf8(stdout@));
        }
    }
    if !succeeded {
        return None;
    }
    match utf8_text(stdout) {
        Some(text) => Some(String::from_str(trim_text(text.as_str()))),
        None => None,
    }
}

} // verus!
