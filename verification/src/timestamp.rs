//! Instants, and the two texts that a capture writes of one.
//!
//! An instant is held as plain numbers. `chrono` turns it into text: the
//! RFC 3339 form that goes into a document, and, by a pattern that is given
//! here, the compact stamp that goes into a file name.

use std::fmt::Write;
use vstd::prelude::*;

verus! {

/// An instant in UTC: the whole seconds since 1970-01-01T00:00:00Z, and the
/// nanoseconds past them.
#[derive(Clone, Copy, Debug, PartialEq, Eq)]
pub struct Timestamp {
    pub secs: i64,
    pub nanos: u32,
}

/// The RFC 3339 text of an instant, as `chrono` writes it; `None` for numbers
/// that `chrono` takes for no instant.
pub uninterp spec fn rfc3339_text(secs: i64, nanos: u32) -> Option<Seq<char>>;

/// The text of an instant that `chrono` writes for a `strftime` pattern;
/// `None` for numbers that `chrono` takes for no instant and for a pattern
/// that it cannot write the instant by.
pub uninterp spec fn formatted_text(secs: i64, nanos: u32, pattern: Seq<char>) -> Option<Seq<char>>;

/// The stamp of an instant for a file name: year, month, day, an underscore,
/// hour, minute and second.
pub open spec fn file_stamp_text(secs: i64, nanos: u32) -> Option<Seq<char>> {
    formatted_text(secs, nanos, "%Y%m%d_%H%M%S"@)
}

/// `chrono::DateTime::from_timestamp`, then `to_rfc3339` on the instant.
#[verifier::external_body]
fn chrono_rfc3339(secs: i64, nanos: u32) -> (text: Option<String>)
    ensures
        match text {
            Some(t) => rfc3339_text(secs, nanos) == Some(t@),
            None => rfc3339_text(secs, nanos) is None,
        },
{
    match chrono::DateTime::from_timestamp(secs, nanos) {
        Some(instant) => Some(instant.to_rfc3339()),
        None => None,
    }
}

/// `chrono::DateTime::from_timestamp`, then `format` on the instant with the
/// pattern, written into a string; a pattern that cannot be written by gives
/// `None`.
#[verifier::external_body]
fn chrono_format(secs: i64, nanos: u32, pattern: &str) -> (text: Option<String>)
    ensures
        match text {
            Some(t) => formatted_text(secs, nanos, pattern@) == Some(t@),
            None => formatted_text(secs, nanos, pattern@) is None,
        },
{
    match chrono::DateTime::from_timestamp(secs, nanos) {
        Some(instant) => {
            let mut out = String::new();
            match write!(out, "{}", instant.format(pattern)) {
                Ok(()) => Some(out),
                Err(_) => None,
            }
        },
        None => None,
    }
}

impl Timestamp {
    /// The RFC 3339 text of the instant.
    pub fn to_rfc3339(&self) -> (text: Option<String>)
        ensures
            match text {
                Some(t) => rfc3339_text(self.secs, self.nanos) == Some(t@),
                None => rfc3339_text(self.secs, self.nanos) is None,
            },
    {
        chrono_rfc3339(self.secs, self.nanos)
    }

    /// The stamp of the instant for a file name.
    pub fn to_file_stamp(&self) -> (text: Option<String>)
        ensures
            match text {
                Some(t) => file_stamp_text(self.secs, self.nanos) == Some(t@),
                None => file_stamp_text(self.secs, self.nanos) is None,
            },
    {
        chrono_format(self.secs, self.nanos, "%Y%m%d_%H%M%S")
    }
}

} // verus!
