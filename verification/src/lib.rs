//! Snapshots of the shape of a conversation-state record.
//!
//! A snapshot is a JSON Schema document with a content hash, a time and a
//! source-control revision, named for an archive in which the shape can be
//! compared from release to release. The schema comes one of two ways: read
//! off an example of the record ([`analyzer`]), or derived from the record's
//! declaration by the caller and handed in ([`generator`]). [`capture`] puts
//! the snapshot together.
//!
//! The library reads no clock, runs no command and writes no file: the caller
//! hands it the time and the outcome of the revision command, and takes back
//! the file's name and text. JSON text, digests and dates are written by
//! `serde_json`, `sha2` and `chrono`; what is taken on trust of them stands
//! in [`serde_bridge`], [`hasher`], [`timestamp`], [`git`] and [`json`], one
//! declaration for each of their functions.

pub mod analyzer;
pub mod capture;
pub mod error;
pub mod generator;
pub mod git;
pub mod hasher;
pub mod json;
pub mod key_order;
pub mod schema_types;
pub mod serde_bridge;
pub mod timestamp;
