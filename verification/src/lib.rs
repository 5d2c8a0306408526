//! Inspection and recovery rules for Buddy password vault databases.
//!
//! The library decides what an inspection reports and what an export recovers, writes and
//! refuses; reading the SQLite database, decrypting, and touching the filesystem are done by
//! the caller, which hands the results to these functions as plain values.
use vstd::prelude::*;

pub mod attachments;
pub mod database;
pub mod entries;
pub mod error;
pub mod export;
pub mod fields;
pub mod json;
pub mod laws;
pub mod model;
pub mod paths;
pub mod refs;
pub mod report;
pub mod text;

pub use database::inspect;
pub use error::RescueError;
pub use model::{ExportKind, ExportSummary, Inspection, Integrity};

verus! {

/// The result of a command.
pub type Result<T> = std::result::Result<T, RescueError>;

} // verus!
