//! What can go wrong while a schema is derived and captured.

use vstd::prelude::*;

verus! {

/// Why a schema could not be derived or captured.
#[derive(Clone, Copy, Debug, PartialEq, Eq)]
pub enum SchemaError {
    /// The value at the root of the example is not an object.
    RootNotObject,
    /// The numbers given for the time of the capture stand for no instant.
    InvalidTimestamp,
    /// The assembled document could not be written out as JSON.
    Serialization,
}

/// The message for an error, as a person reads it.
pub open spec fn message_text(error: SchemaError) -> Seq<char> {
    match error {
        SchemaError::RootNotObject => "Expected object at root level"@,
        SchemaError::InvalidTimestamp => "Capture time is out of range"@,
        SchemaError::Serialization => "Failed to serialize the schema document"@,
    }
}

impl SchemaError {
    /// The message for the error, as a person reads it.
    pub fn message(&self) -> (text: String)
        ensures
            text@ == message_text(*self),
    {
        match self {
            SchemaError::RootNotObject => String::from_str("Expected object at root level"),
            SchemaError::InvalidTimestamp => String::from_str("Capture time is out of range"),
            SchemaError::Serialization => String::from_str("Failed to serialize the schema document"),
        }
    }
}

} // verus!
