//! The decisions of an export: whether the selected vault can be unlocked, what the
//! manifest and summary say, whether the destination may be written or replaced, and the
//! exit status.
use vstd::prelude::*;

use crate::error::RescueError;
use crate::json::{JsonValue, decode_json, decoded_json, spec_get_str, str_eq};
use crate::model::{kind_filename, kind_label, AttachmentManifest, ExportIssue, ExportKind, ExportSummary, KdfParameters,
    SUPPORTED_VAULT_VERSION, VaultRecord, exact_bytes, spec_kdf_error, wrong_length_message};
use crate::text::{concat3, decimal_u64, spec_decimal};

verus! {

/// The profile identifier of an export directory's manifest.
pub const EXPORT_FORMAT: &'static str = "buddy-rescue-export-v1";

/// The profile identifier of `entries.json`.
pub const ENTRIES_FORMAT: &'static str = "buddy-rescue-entries-v1";

/// The warning that a CSV export carries.
pub const CSV_WARNING: &'static str = "CSV is a compatibility format and omits custom fields, SSH fields, field history, trash state, and icons; use JSON for full-fidelity recovery";

/// The name of the tool, as the manifest records it.
pub const TOOL_NAME: &'static str = "buddy-rescue";

/// What unlocking a vault needs once its stored fields passed the checks.
#[derive(Debug)]
pub struct UnlockParameters {
    pub salt: Vec<u8>,
    pub verifier_nonce: Vec<u8>,
    pub kdf: KdfParameters,
}

/// Why a vault cannot be unlocked by this build, judged from its stored fields alone.
pub open spec fn unlock_refusal(v: VaultRecord) -> Option<Seq<char>> {
    if v.salt@.len() != 16 {
        Some(wrong_length_message("vault salt"@, v.salt@.len(), 16))
    } else if v.nonce@.len() != 24 {
        Some(wrong_length_message("vault verifier nonce"@, v.nonce@.len(), 24))
    } else if v.ciphertext@.len() != 48 {
        Some("vault verifier ciphertext is "@ + spec_decimal(v.ciphertext@.len()) + " bytes; expected 48"@)
    } else {
        spec_kdf_error(v)
    }
}

/// Checks the selected vault before any key derivation: its format version, the lengths of
/// its salt, verifier nonce and verifier ciphertext, and its key-derivation parameters.
pub fn unlock_parameters(vault: &VaultRecord) -> (r: Result<UnlockParameters, RescueError>)
    ensures
        vault.version != SUPPORTED_VAULT_VERSION ==> (r matches Err(RescueError::UnsupportedVaultVersion { vault_id, version })
            && vault_id@ == vault.id@ && version == vault.version),
        vault.version == SUPPORTED_VAULT_VERSION ==> match unlock_refusal(*vault) {
            Some(m) => r matches Err(RescueError::InvalidDatabase(e)) && e@ == m,
            None => r matches Ok(p) && p.salt@ == vault.salt@ && p.verifier_nonce@ == vault.nonce@
                && p.kdf.algo@ == vault.kdf_algo@ && p.kdf.mem_cost == vault.kdf_mem_cost
                && p.kdf.time_cost == vault.kdf_time_cost && p.kdf.parallelism == vault.kdf_parallelism
                && p.kdf.version == vault.kdf_version,
        },
{
    if vault.version != SUPPORTED_VAULT_VERSION {
        return Err(RescueError::UnsupportedVaultVersion { vault_id: vault.id.clone(), version: vault.version });
    }
    let salt = match exact_bytes("vault salt", vault.salt.as_slice(), 16) {
        Ok(s) => s,
        Err(m) => return Err(RescueError::InvalidDatabase(m)),
    };
    let verifier_nonce = match exact_bytes("vault verifier nonce", vault.nonce.as_slice(), 24) {
        Ok(n) => n,
        Err(m) => return Err(RescueError::InvalidDatabase(m)),
    };
    if vault.ciphertext.len() != 48 {
        return Err(RescueError::InvalidDatabase(concat3("vault verifier ciphertext is ",
            decimal_u64(vault.ciphertext.len() as u64).as_str(), " bytes; expected 48")));
    }
    let kdf = match vault.kdf_params() {
        Ok(k) => k,
        Err(m) => return Err(RescueError::InvalidDatabase(m)),
    };
    Ok(UnlockParameters { salt, verifier_nonce, kdf })
}

/// The tool that wrote an export.
#[derive(Debug)]
pub struct ToolIdentity {
    pub name: &'static str,
    pub version: &'static str,
}

/// The exported vault's cleartext settings.
#[derive(Debug)]
pub struct ExportVault {
    pub id: String,
    pub name: String,
    pub color: Option<String>,
    pub version: i64,
    pub created_at: i64,
    pub updated_at: i64,
    pub password_changed_at: i64,
}

/// The entries file of an export and how many entries it holds.
#[derive(Debug)]
pub struct ExportedFile {
    pub path: &'static str,
    pub format: &'static str,
    pub recovered: usize,
    pub skipped: usize,
}

/// The contents of the export's manifest file.
#[derive(Debug)]
pub struct Manifest {
    pub format: &'static str,
    pub tool: ToolIdentity,
    pub exported_at: i64,
    pub vault: ExportVault,
    pub entries: ExportedFile,
    pub attachments: Vec<AttachmentManifest>,
    pub issues: Vec<ExportIssue>,
    pub warnings: Vec<String>,
}

/// The warning an export of this kind carries.
pub open spec fn kind_warning(kind: ExportKind) -> Option<Seq<char>> {
    match kind {
        ExportKind::Csv => Some(CSV_WARNING@),
        ExportKind::Json => None,
    }
}

/// The warning an export of this kind carries.
pub fn export_warning(kind: ExportKind) -> (r: Option<&'static str>)
    ensures
        match r {
            Some(w) => kind_warning(kind) == Some(w@),
            None => kind_warning(kind) is None,
        },
{
    match kind {
        ExportKind::Csv => Some(CSV_WARNING),
        ExportKind::Json => None,
    }
}

/// The manifest describes an export of `vault` in `kind`, written at `exported_at` by the
/// tool at `tool_version`.
pub open spec fn describes_manifest(r: Manifest, vault: VaultRecord, kind: ExportKind, source_entries: usize,
    recovered_entries: usize, attachments: Seq<AttachmentManifest>, entry_issues: Seq<ExportIssue>,
    attachment_issues: Seq<ExportIssue>, exported_at: i64, tool_version: &'static str) -> bool {
    &&& r.format@ == EXPORT_FORMAT@
    &&& r.tool.name@ == TOOL_NAME@
    &&& r.tool.version == tool_version
    &&& r.exported_at == exported_at
    &&& r.vault.id == vault.id && r.vault.name == vault.name && r.vault.color == vault.color
    &&& r.vault.version == vault.version && r.vault.created_at == vault.created_at
    &&& r.vault.updated_at == vault.updated_at && r.vault.password_changed_at == vault.password_changed_at
    &&& r.entries.path@ == kind_filename(kind) && r.entries.format@ == kind_label(kind)
    &&& r.entries.recovered == recovered_entries
    &&& r.entries.skipped == (if source_entries >= recovered_entries { source_entries - recovered_entries } else { 0 })
    &&& r.attachments@ == attachments
    &&& r.issues@ == entry_issues + attachment_issues
    &&& match kind_warning(kind) {
        Some(w) => r.warnings@.len() == 1 && r.warnings@[0]@ == w,
        None => r.warnings@.len() == 0,
    }
}

/// Describes an export: the vault, the entries file with the recovered count and the number
/// of rows skipped (source rows minus recovered, never below zero), the attachment inventory,
/// every issue (entries first, then attachments), and the CSV warning when it applies.
pub fn build_manifest(
    vault: VaultRecord,
    kind: ExportKind,
    source_entries: usize,
    recovered_entries: usize,
    attachments: Vec<AttachmentManifest>,
    entry_issues: Vec<ExportIssue>,
    attachment_issues: Vec<ExportIssue>,
    exported_at: i64,
    tool_version: &'static str,
) -> (r: Manifest)
    ensures
        describes_manifest(r, vault, kind, source_entries, recovered_entries, attachments@, entry_issues@,
            attachment_issues@, exported_at, tool_version),
{
    let mut issues = entry_issues;
    let mut more = attachment_issues;
    issues.append(&mut more);
    let mut warnings: Vec<String> = Vec::new();
    match export_warning(kind) {
        Some(w) => warnings.push(crate::text::owned(w)),
        None => {},
    }
    Manifest {
        format: EXPORT_FORMAT,
        tool: ToolIdentity { name: TOOL_NAME, version: tool_version },
        exported_at,
        vault: ExportVault {
            id: vault.id,
            name: vault.name,
            color: vault.color,
            version: vault.version,
            created_at: vault.created_at,
            updated_at: vault.updated_at,
            password_changed_at: vault.password_changed_at,
        },
        entries: ExportedFile {
            path: kind.filename(),
            format: kind.label(),
            recovered: recovered_entries,
            skipped: source_entries.saturating_sub(recovered_entries),
        },
        attachments,
        issues,
        warnings,
    }
}

/// What the command reports after a successful export.
pub fn export_summary(output: std::path::PathBuf, kind: ExportKind, entries: usize, attachments: usize,
    issues: usize) -> (r: ExportSummary)
    ensures
        r.output == output,
        r.entries == entries,
        r.attachments == attachments,
        r.issues == issues,
        match r.warning {
            Some(w) => kind_warning(kind) == Some(w@),
            None => kind_warning(kind) is None,
        },
{
    ExportSummary { output, entries, attachments, issues, warning: export_warning(kind) }
}

/// What is known of an existing destination.
#[derive(Debug)]
pub struct ExistingOutput {
    /// Whether the path itself is a symbolic link; nothing when its metadata could not be read.
    pub is_symlink: Option<bool>,
    /// Whether the path is a directory.
    pub is_dir: bool,
    /// The bytes of its manifest file, when that file could be read.
    pub marker: Option<Vec<u8>>,
}

/// A decoded manifest names the export format.
pub open spec fn names_export_format(m: JsonValue) -> bool {
    spec_get_str(m, "format"@) == Some(EXPORT_FORMAT@)
}

/// Tells whether a decoded manifest names the export format.
pub fn is_export_manifest(m: &JsonValue) -> (r: bool)
    ensures
        r == names_export_format(*m),
{
    match m.get_str("format") {
        Some(f) => str_eq(f.as_str(), EXPORT_FORMAT),
        None => false,
    }
}

/// The destination is a previous export: a real directory (not a symbolic link) whose
/// manifest decodes as JSON and names the export format.
pub open spec fn is_previous_export(e: ExistingOutput) -> bool {
    &&& e.is_symlink == Some(false)
    &&& e.is_dir
    &&& e.marker matches Some(bytes) && decoded_json(bytes@) matches Ok(m) && names_export_format(m)
}

/// Accepts an existing destination for replacement only when it is a previous export.
pub fn validate_previous_export(output: std::path::PathBuf, existing: &ExistingOutput) -> (r: Result<(), RescueError>)
    ensures
        is_previous_export(*existing) ==> r is Ok,
        !is_previous_export(*existing) ==> (r matches Err(RescueError::UnsafeReplacement(p)) && p == output),
{
    let not_link = match existing.is_symlink {
        Some(link) => !link,
        None => false,
    };
    if !not_link || !existing.is_dir {
        return Err(RescueError::UnsafeReplacement(output));
    }
    let format_ok = match &existing.marker {
        Some(bytes) => match decode_json(bytes.as_slice()) {
            Ok(m) => is_export_manifest(&m),
            Err(_) => false,
        },
        None => false,
    };
    if !format_ok {
        return Err(RescueError::UnsafeReplacement(output));
    }
    Ok(())
}

/// How the finished export reaches its destination.
#[derive(Debug)]
pub enum OutputPlan {
    /// The destination does not exist: move the export there.
    Move,
    /// The destination is a previous export: replace it.
    Replace,
}

/// Decides whether the export may be written to its destination: a new path is fine; an
/// existing one is refused unless replacing was requested and it is a previous export.
pub fn plan_output(output: std::path::PathBuf, force: bool, existing: Option<ExistingOutput>)
    -> (r: Result<OutputPlan, RescueError>)
    ensures
        match existing {
            None => r matches Ok(OutputPlan::Move),
            Some(e) => if !force {
                r matches Err(RescueError::OutputExists(p)) && p == output
            } else if is_previous_export(e) {
                r matches Ok(OutputPlan::Replace)
            } else {
                r matches Err(RescueError::UnsafeReplacement(p)) && p == output
            },
        },
{
    match existing {
        None => Ok(OutputPlan::Move),
        Some(e) => {
            if !force {
                return Err(RescueError::OutputExists(output));
            }
            match validate_previous_export(output, &e) {
                Ok(()) => Ok(OutputPlan::Replace),
                Err(err) => Err(err),
            }
        },
    }
}

/// The exit status of `inspect`: 0 when the database is compatible, 2 otherwise.
pub fn inspection_exit_status(compatible: bool) -> (r: u8)
    ensures
        r == (if compatible { 0u8 } else { 2u8 }),
{
    if compatible { 0 } else { 2 }
}

/// The exit status of a completed `export`: 0 when every record was recovered, 2 when some
/// record has an issue.
pub fn export_exit_status(summary: &ExportSummary) -> (r: u8)
    ensures
        r == (if summary.issues == 0 { 0u8 } else { 2u8 }),
{
    if summary.issues == 0 { 0 } else { 2 }
}

/// Removes the last character with `String::pop`, which, as std documents it, returns the
/// last character and removes it, or returns nothing for an empty string.
#[verifier::external_body]
fn pop_char(s: &mut String) -> (r: Option<char>)
    ensures
        old(s)@.len() == 0 ==> r is None && final(s)@ == old(s)@,
        old(s)@.len() > 0 ==> r == Some(old(s)@.last()) && final(s)@ == old(s)@.drop_last(),
{
    s.pop()
}

/// A password line without its line ending (`\n` or `\r\n`).
pub open spec fn spec_strip_line_ending(s: Seq<char>) -> Seq<char> {
    if s.len() > 0 && s.last() == '\n' {
        let t = s.drop_last();
        if t.len() > 0 && t.last() == '\r' { t.drop_last() } else { t }
    } else {
        s
    }
}

fn ends_with(s: &String, c: char) -> (r: bool)
    ensures
        r == (s@.len() > 0 && s@.last() == c),
{
    let n = s.as_str().unicode_len();
    n > 0 && s.as_str().get_char(n - 1) == c
}

/// Removes exactly one line ending from a password read from standard input.
pub fn strip_line_ending(password: &mut String)
    ensures
        final(password)@ == spec_strip_line_ending(old(password)@),
{
    if ends_with(password, '\n') {
        let _ = pop_char(password);
        if ends_with(password, '\r') {
            let _ = pop_char(password);
        }
    }
}

} // verus!
