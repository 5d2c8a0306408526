//! Database records, reports and the validation rules applied to single fields.
use vstd::prelude::*;

use crate::json::JsonValue;
use crate::text::{concat2, decimal_i64, decimal_u64, owned, spec_decimal, spec_decimal_int};

verus! {

/// The one schema migration this build reads.
pub const SUPPORTED_SCHEMA_VERSION: i64 = 1;

/// The one vault format version this build decrypts.
pub const SUPPORTED_VAULT_VERSION: i64 = 1;

/// Largest accepted Argon2 memory cost, in KiB (1 GiB).
pub const KDF_MEMORY_LIMIT: i64 = 1048576;

/// Largest accepted Argon2 iteration count.
pub const KDF_TIME_LIMIT: i64 = 20;

/// Largest accepted Argon2 lane count.
pub const KDF_PARALLELISM_LIMIT: i64 = 64;

/// A row of the `vault` table.
#[derive(Debug)]
pub struct VaultRecord {
    pub id: String,
    pub salt: Vec<u8>,
    pub nonce: Vec<u8>,
    pub ciphertext: Vec<u8>,
    pub name: String,
    pub color: Option<String>,
    pub hint_present: bool,
    pub biometrics_enabled: bool,
    pub kdf_algo: String,
    pub kdf_mem_cost: i64,
    pub kdf_time_cost: i64,
    pub kdf_parallelism: i64,
    pub kdf_version: i64,
    pub password_changed_at: i64,
    pub version: i64,
    pub created_at: i64,
    pub updated_at: i64,
}

/// Key-derivation parameters that passed the safety limits.
#[derive(Debug)]
pub struct KdfParameters {
    pub algo: String,
    pub mem_cost: u32,
    pub time_cost: u32,
    pub parallelism: u32,
    pub version: u32,
}

/// A value that fits in `u32`.
pub open spec fn fits_u32(value: int) -> bool {
    0 <= value <= u32::MAX
}

/// The message for a parameter outside the `u32` range.
pub open spec fn out_of_range_message(name: Seq<char>, value: int) -> Seq<char> {
    name + " is outside the supported range: "@ + spec_decimal_int(value)
}

/// The first reason the vault's key-derivation parameters are refused, if any.
pub open spec fn spec_kdf_error(v: VaultRecord) -> Option<Seq<char>> {
    if v.kdf_mem_cost > KDF_MEMORY_LIMIT {
        Some("kdf_mem_cost exceeds the 1 GiB safety limit"@)
    } else if v.kdf_time_cost > KDF_TIME_LIMIT {
        Some("kdf_time_cost exceeds the safety limit of 20 iterations"@)
    } else if v.kdf_parallelism > KDF_PARALLELISM_LIMIT {
        Some("kdf_parallelism exceeds the safety limit of 64 lanes"@)
    } else if !fits_u32(v.kdf_mem_cost as int) {
        Some(out_of_range_message("kdf_mem_cost"@, v.kdf_mem_cost as int))
    } else if !fits_u32(v.kdf_time_cost as int) {
        Some(out_of_range_message("kdf_time_cost"@, v.kdf_time_cost as int))
    } else if !fits_u32(v.kdf_parallelism as int) {
        Some(out_of_range_message("kdf_parallelism"@, v.kdf_parallelism as int))
    } else if !fits_u32(v.kdf_version as int) {
        Some(out_of_range_message("kdf_version"@, v.kdf_version as int))
    } else {
        None
    }
}

/// Converts a stored parameter to `u32`, naming it in the refusal.
pub fn checked_u32(name: &str, value: i64) -> (r: Result<u32, String>)
    ensures
        match r {
            Ok(v) => fits_u32(value as int) && v == value,
            Err(m) => !fits_u32(value as int) && m@ == out_of_range_message(name@, value as int),
        },
{
    if 0 <= value && value <= 4294967295i64 {
        Ok(value as u32)
    } else {
        let mut m = concat2(name, " is outside the supported range: ");
        let d = decimal_i64(value);
        m.append(d.as_str());
        Err(m)
    }
}

impl VaultRecord {
    /// The vault's key-derivation parameters, refused when they exceed the safety limits
    /// or do not fit the parameter types.
    pub fn kdf_params(&self) -> (r: Result<KdfParameters, String>)
        ensures
            match r {
                Ok(p) => spec_kdf_error(*self) is None && p.algo@ == self.kdf_algo@
                    && p.mem_cost == self.kdf_mem_cost && p.time_cost == self.kdf_time_cost
                    && p.parallelism == self.kdf_parallelism && p.version == self.kdf_version,
                Err(m) => spec_kdf_error(*self) == Some(m@),
            },
    {
        if self.kdf_mem_cost > KDF_MEMORY_LIMIT {
            return Err(owned("kdf_mem_cost exceeds the 1 GiB safety limit"));
        }
        if self.kdf_time_cost > KDF_TIME_LIMIT {
            return Err(owned("kdf_time_cost exceeds the safety limit of 20 iterations"));
        }
        if self.kdf_parallelism > KDF_PARALLELISM_LIMIT {
            return Err(owned("kdf_parallelism exceeds the safety limit of 64 lanes"));
        }
        let mem_cost = match checked_u32("kdf_mem_cost", self.kdf_mem_cost) {
            Ok(v) => v,
            Err(m) => return Err(m),
        };
        let time_cost = match checked_u32("kdf_time_cost", self.kdf_time_cost) {
            Ok(v) => v,
            Err(m) => return Err(m),
        };
        let parallelism = match checked_u32("kdf_parallelism", self.kdf_parallelism) {
            Ok(v) => v,
            Err(m) => return Err(m),
        };
        let version = match checked_u32("kdf_version", self.kdf_version) {
            Ok(v) => v,
            Err(m) => return Err(m),
        };
        Ok(KdfParameters { algo: self.kdf_algo.clone(), mem_cost, time_cost, parallelism, version })
    }
}

/// The message for a byte field of the wrong length.
pub open spec fn wrong_length_message(field: Seq<char>, actual: nat, expected: nat) -> Seq<char> {
    field + " is "@ + spec_decimal(actual) + " bytes; expected "@ + spec_decimal(expected)
}

/// Accepts a byte field only when it has exactly `expected` bytes.
pub fn exact_bytes(field: &str, value: &[u8], expected: usize) -> (r: Result<Vec<u8>, String>)
    ensures
        match r {
            Ok(v) => value@.len() == expected && v@ == value@,
            Err(m) => value@.len() != expected
                && m@ == wrong_length_message(field@, value@.len(), expected as nat),
        },
{
    if value.len() == expected {
        Ok(vstd::slice::slice_to_vec(value))
    } else {
        let mut m = concat2(field, " is ");
        m.append(decimal_u64(value.len() as u64).as_str());
        m.append(" bytes; expected ");
        m.append(decimal_u64(expected as u64).as_str());
        Err(m)
    }
}

/// A row of the `entry` table.
#[derive(Debug)]
pub struct EntryRecord {
    pub id: String,
    pub nonce: Vec<u8>,
    pub ciphertext: Vec<u8>,
    pub created_at: i64,
    pub updated_at: i64,
    pub used_at: Option<i64>,
    pub used_count: i64,
    pub deleted_at: Option<i64>,
}

/// A row of the `entry_blob` table.
#[derive(Debug)]
pub struct BlobRecord {
    pub id: String,
    pub entry_id: Option<String>,
    pub nonce: Vec<u8>,
    pub envelope_nonce: Vec<u8>,
    pub envelope_ciphertext: Vec<u8>,
    pub created_at: i64,
    pub updated_at: i64,
}

/// The result of SQLite's own integrity check.
#[derive(Debug)]
pub enum Integrity {
    /// The check answered exactly `ok`.
    Intact,
    Failed { messages: Vec<String> },
}

/// The report of `inspect`.
#[derive(Debug)]
pub struct Inspection {
    pub format: &'static str,
    pub integrity: Integrity,
    pub schema_version: Option<i64>,
    pub compatible: bool,
    pub attachments_directory: std::path::PathBuf,
    pub vaults: Vec<VaultInspection>,
    pub issues: Vec<String>,
}

/// The part of the report about one vault.
#[derive(Debug)]
pub struct VaultInspection {
    pub id: String,
    pub name: String,
    pub color: Option<String>,
    pub hint_present: bool,
    pub biometrics_enabled: bool,
    pub version: i64,
    pub compatible: bool,
    pub kdf: KdfInspection,
    pub live_entries: u64,
    pub trashed_entries: u64,
    pub attachments: u64,
    pub attachment_files_present: u64,
    pub attachment_files_missing: u64,
    pub created_at: i64,
    pub updated_at: i64,
    pub password_changed_at: i64,
    pub issues: Vec<String>,
}

/// The stored key-derivation parameters, as reported.
#[derive(Debug)]
pub struct KdfInspection {
    pub algorithm: String,
    pub memory_kib: i64,
    pub iterations: i64,
    pub parallelism: i64,
    pub version: i64,
}

/// The representation of exported entries.
#[derive(Clone, Copy, Debug, PartialEq, Eq, Structural)]
pub enum ExportKind {
    Json,
    Csv,
}

/// The name of the entries file inside an export of this kind.
pub open spec fn kind_filename(kind: ExportKind) -> Seq<char> {
    match kind {
        ExportKind::Json => "entries.json"@,
        ExportKind::Csv => "entries.csv"@,
    }
}

/// The short name of an export kind.
pub open spec fn kind_label(kind: ExportKind) -> Seq<char> {
    match kind {
        ExportKind::Json => "json"@,
        ExportKind::Csv => "csv"@,
    }
}

impl ExportKind {
    /// The name of the entries file inside the export.
    pub fn filename(self) -> (r: &'static str)
        ensures
            r@ == kind_filename(self),
    {
        match self {
            ExportKind::Json => "entries.json",
            ExportKind::Csv => "entries.csv",
        }
    }

    /// The short name of the representation.
    pub fn label(self) -> (r: &'static str)
        ensures
            r@ == kind_label(self),
    {
        match self {
            ExportKind::Json => "json",
            ExportKind::Csv => "csv",
        }
    }
}

/// What an export produced.
#[derive(Debug)]
pub struct ExportSummary {
    pub output: std::path::PathBuf,
    pub entries: usize,
    pub attachments: usize,
    pub issues: usize,
    pub warning: Option<&'static str>,
}

/// A decrypted entry with its cleartext database metadata.
#[derive(Debug)]
pub struct ExportEntry {
    pub id: String,
    pub created_at: i64,
    pub updated_at: i64,
    pub used_at: Option<i64>,
    pub used_count: i64,
    pub deleted_at: Option<i64>,
    pub payload: Vec<(String, JsonValue)>,
}

/// How far an attachment's recovery went.
#[derive(Clone, Copy, Debug, PartialEq, Eq, Structural)]
pub enum AttachmentStatus {
    Recovered,
    MissingMetadata,
    MissingCiphertext,
    InvalidMetadata,
    AuthenticationFailed,
}

/// One attachment in the export manifest.
#[derive(Debug)]
pub struct AttachmentManifest {
    pub id: String,
    pub entry_id: Option<String>,
    pub filename: String,
    pub mime_type: Option<String>,
    pub declared_size: Option<u64>,
    pub created_at: Option<i64>,
    pub updated_at: Option<i64>,
    pub path: Option<String>,
    pub status: AttachmentStatus,
}

/// A record that could not be recovered, with the reason.
#[derive(Debug)]
pub struct ExportIssue {
    pub record_type: &'static str,
    pub id: String,
    pub message: String,
}

/// What an entry says about an attached file.
#[derive(Debug)]
pub struct FileReference {
    pub filename: String,
    pub mime_type: Option<String>,
    pub size: Option<u64>,
}

impl FileReference {
    /// A copy of the reference.
    pub fn duplicate(&self) -> (r: FileReference)
        ensures
            r == *self,
    {
        FileReference {
            filename: self.filename.clone(),
            mime_type: self.mime_type.clone(),
            size: self.size,
        }
    }
}

} // verus!
