//! The failures that stop an inspection or an export.
use vstd::prelude::*;

verus! {

/// `std::path::PathBuf`, a filesystem path, carried through unchanged; nothing is claimed of it.
#[verifier::external_type_specification]
#[verifier::external_body]
pub struct ExPathBuf(std::path::PathBuf);

/// `std::io::Error`, an operating-system I/O failure, carried through unchanged; nothing is claimed of it.
#[verifier::external_type_specification]
#[verifier::external_body]
pub struct ExIoError(std::io::Error);

/// `rusqlite::Error`, a SQLite failure, carried through unchanged; nothing is claimed of it.
#[verifier::external_type_specification]
#[verifier::external_body]
pub struct ExSqliteError(rusqlite::Error);

/// `serde_json::Error`, a JSON failure, carried through unchanged; nothing is claimed of it.
#[verifier::external_type_specification]
#[verifier::external_body]
pub struct ExJsonError(serde_json::Error);

/// `csv::Error`, a CSV failure, carried through unchanged; nothing is claimed of it.
#[verifier::external_type_specification]
#[verifier::external_body]
pub struct ExCsvError(csv::Error);

/// Why a command could not complete.
#[derive(Debug)]
pub enum RescueError {
    /// The database is unreadable or structurally unusable; the text says why.
    InvalidDatabase(String),
    /// The selected vault has a format version this build does not read.
    UnsupportedVaultVersion { vault_id: String, version: i64 },
    /// The database schema migration is not the supported one.
    UnsupportedSchemaVersion(i64),
    /// Several vaults exist and none was named; the text lists them.
    VaultSelectionRequired(String),
    /// No vault has the requested id.
    VaultNotFound(String),
    /// The master password did not open the vault verifier.
    InvalidPassword,
    /// The destination exists and replacing it was not requested.
    OutputExists(std::path::PathBuf),
    /// The destination exists but is not a previous export.
    UnsafeReplacement(std::path::PathBuf),
    /// A filesystem action failed.
    Io { action: String, source: std::io::Error },
    /// The SQLite driver failed.
    Sqlite(rusqlite::Error),
    /// JSON encoding failed.
    Json(serde_json::Error),
    /// CSV encoding failed.
    Csv(csv::Error),
}

impl RescueError {
    /// An I/O failure while performing `action`.
    pub fn io(action: String, source: std::io::Error) -> (r: RescueError)
        ensures
            r matches RescueError::Io { action: a, source: s } && a == action && s == source,
    {
        RescueError::Io { action, source }
    }
}

} // verus!
