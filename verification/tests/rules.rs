use std::path::PathBuf;

use buddy_rescue::RescueError;
use buddy_rescue::attachments::{
    AttachmentEvent, AttachmentJob, AttachmentOutcome, AttachmentStep, CiphertextRead,
    attachment_jobs, recover_attachments,
};
use buddy_rescue::database::{
    VaultFacts, attachment_file_counts, choose_vault, inspect_vault, integrity,
    require_exportable_schema, required_schema, schema_issues,
};
use buddy_rescue::entries::{PayloadOutcome, decide_entries, decrypt_entries, entry_precheck, open_payload};
use buddy_rescue::export::{
    CSV_WARNING, ExistingOutput, OutputPlan, build_manifest, export_exit_status,
    inspection_exit_status, plan_output, strip_line_ending, unlock_parameters, validate_previous_export,
};
use buddy_rescue::fields::{csv_row, file_candidates, string_value, string_vec_value, totp_value};
use buddy_rescue::json::{JsonNumber, JsonValue};
use buddy_rescue::model::{
    AttachmentStatus, BlobRecord, EntryRecord, ExportKind, FileReference, Integrity, VaultRecord,
    checked_u32, exact_bytes,
};
use buddy_rescue::paths::{safe_component, sanitize_filename};
use buddy_rescue::refs::References;
use buddy_rescue::text::{decimal_i64, decimal_u64, join, to_ascii_uppercase};

fn text(s: &str) -> JsonValue {
    JsonValue::Str(s.to_string())
}

fn number(n: u64) -> JsonValue {
    JsonValue::Number(JsonNumber { text: n.to_string(), unsigned: Some(n) })
}

fn object(members: Vec<(&str, JsonValue)>) -> JsonValue {
    JsonValue::Object(members.into_iter().map(|(k, v)| (k.to_string(), v)).collect())
}

fn members(value: JsonValue) -> Vec<(String, JsonValue)> {
    match value {
        JsonValue::Object(m) => m,
        _ => panic!("not an object"),
    }
}

fn field(role: &str, value: JsonValue) -> JsonValue {
    object(vec![("role", text(role)), ("value", value)])
}

fn typed(kind: &str, value: JsonValue) -> JsonValue {
    object(vec![("type", text(kind)), ("value", value)])
}

fn payload_of(fields: Vec<JsonValue>) -> Vec<(String, JsonValue)> {
    members(object(vec![(
        "groups",
        JsonValue::Array(vec![object(vec![("fields", JsonValue::Array(fields))])]),
    )]))
}

fn file(blob_id: &str, filename: Option<&str>, size: Option<u64>) -> JsonValue {
    let mut m = vec![("blob_id", text(blob_id))];
    if let Some(f) = filename {
        m.push(("filename", text(f)));
    }
    if let Some(s) = size {
        m.push(("size", number(s)));
    }
    object(m)
}

fn vault(id: &str) -> VaultRecord {
    VaultRecord {
        id: id.to_string(),
        salt: vec![0; 16],
        nonce: vec![0; 24],
        ciphertext: vec![0; 48],
        name: format!("Vault {id}"),
        color: None,
        hint_present: true,
        biometrics_enabled: false,
        kdf_algo: "argon2id".to_string(),
        kdf_mem_cost: 65536,
        kdf_time_cost: 3,
        kdf_parallelism: 4,
        kdf_version: 19,
        password_changed_at: 5,
        version: 1,
        created_at: 1,
        updated_at: 2,
    }
}

fn entry(id: &str) -> EntryRecord {
    EntryRecord {
        id: id.to_string(),
        nonce: vec![0; 24],
        ciphertext: vec![0; 32],
        created_at: 10,
        updated_at: 11,
        used_at: Some(12),
        used_count: 3,
        deleted_at: None,
    }
}

fn blob(id: &str) -> BlobRecord {
    BlobRecord {
        id: id.to_string(),
        entry_id: None,
        nonce: vec![0; 24],
        envelope_nonce: vec![0; 24],
        envelope_ciphertext: vec![0; 48],
        created_at: 20,
        updated_at: 21,
    }
}

#[test]
fn decimal_rendering_is_exact() {
    assert_eq!(decimal_u64(0), "0");
    assert_eq!(decimal_u64(1234567890), "1234567890");
    assert_eq!(decimal_u64(u64::MAX), "18446744073709551615");
    assert_eq!(decimal_i64(-42), "-42");
    assert_eq!(decimal_i64(i64::MIN), "-9223372036854775808");
}

#[test]
fn join_puts_the_separator_between_parts_only() {
    let parts = vec!["a".to_string(), "b".to_string(), "c".to_string()];
    assert_eq!(join(&parts, "; "), "a; b; c");
    assert_eq!(join(&Vec::new(), "; "), "");
    assert_eq!(to_ascii_uppercase("sha1-é"), "SHA1-é");
}

#[test]
fn out_of_range_parameters_are_named() {
    assert_eq!(checked_u32("kdf_version", 19), Ok(19));
    assert_eq!(
        checked_u32("kdf_version", -1),
        Err("kdf_version is outside the supported range: -1".to_string())
    );
    assert_eq!(
        checked_u32("kdf_version", 4294967296),
        Err("kdf_version is outside the supported range: 4294967296".to_string())
    );
}

#[test]
fn byte_fields_must_have_their_exact_length() {
    assert_eq!(exact_bytes("entry nonce", &[1, 2, 3], 3), Ok(vec![1, 2, 3]));
    assert_eq!(
        exact_bytes("entry nonce", &[1, 2, 3], 24),
        Err("entry nonce is 3 bytes; expected 24".to_string())
    );
}

#[test]
fn key_derivation_limits_are_enforced_in_order() {
    let mut v = vault("v");
    assert!(v.kdf_params().is_ok());
    v.kdf_mem_cost = 1_048_577;
    v.kdf_time_cost = 21;
    assert_eq!(v.kdf_params().err().unwrap(), "kdf_mem_cost exceeds the 1 GiB safety limit");
    v.kdf_mem_cost = 1;
    assert_eq!(
        v.kdf_params().err().unwrap(),
        "kdf_time_cost exceeds the safety limit of 20 iterations"
    );
    v.kdf_time_cost = 1;
    v.kdf_parallelism = 65;
    assert_eq!(
        v.kdf_params().err().unwrap(),
        "kdf_parallelism exceeds the safety limit of 64 lanes"
    );
    v.kdf_parallelism = -3;
    assert_eq!(
        v.kdf_params().err().unwrap(),
        "kdf_parallelism is outside the supported range: -3"
    );
}

#[test]
fn safe_components_exclude_separators_and_dot_names() {
    assert!(safe_component("33333333-3333-4333-8333-333333333333"));
    assert!(!safe_component(""));
    assert!(!safe_component("."));
    assert!(!safe_component(".."));
    assert!(safe_component("..."));
    assert!(!safe_component("a/b"));
    assert!(!safe_component("a\\b"));
    assert!(!safe_component("c:"));
    assert!(!safe_component("what?"));
    assert!(!safe_component("tab\there"));
    assert!(!safe_component("del\u{7f}"));
}

#[test]
fn attachment_names_are_cleaned() {
    assert_eq!(sanitize_filename("report.pdf"), "report.pdf");
    assert_eq!(sanitize_filename("a/b\\c:d"), "a_b_c_d");
    assert_eq!(sanitize_filename("  ..hidden.txt..  "), "hidden.txt");
    assert_eq!(sanitize_filename("..."), "attachment.bin");
    assert_eq!(sanitize_filename("   "), "attachment.bin");
    assert_eq!(sanitize_filename("\u{3000}名前.txt\u{a0}"), "名前.txt");
    assert_eq!(sanitize_filename("line\nbreak"), "line_break");
    assert_eq!(sanitize_filename("a?b.txt"), "a_b.txt");
    assert_eq!(sanitize_filename("a*b\"c<d>e|f"), "a_b_c_d_e_f");
    // Names that clean to a lone dot or to two dots fall back as well.
    assert_eq!(sanitize_filename(". . ."), "attachment.bin");
    assert_eq!(sanitize_filename(". .. ."), "attachment.bin");
    for name in ["a?b.txt", ". .. .", "con:nul", "x\u{0}y", "  ", "report.pdf"] {
        assert!(safe_component(&sanitize_filename(name)));
    }
}

#[test]
fn vault_choice_follows_the_request() {
    let found = choose_vault(vec![vault("a"), vault("b")], Some("b")).unwrap();
    assert_eq!(found.id, "b");
    match choose_vault(vec![vault("a")], Some("z")) {
        Err(RescueError::VaultNotFound(id)) => assert_eq!(id, "z"),
        _ => panic!("expected VaultNotFound"),
    }
    match choose_vault(Vec::new(), None) {
        Err(RescueError::InvalidDatabase(m)) => assert_eq!(m, "database contains no vaults"),
        _ => panic!("expected InvalidDatabase"),
    }
    assert_eq!(choose_vault(vec![vault("only")], None).unwrap().id, "only");
    match choose_vault(vec![vault("a"), vault("b")], None) {
        Err(RescueError::VaultSelectionRequired(list)) => {
            assert_eq!(list, "  a  Vault a\n  b  Vault b")
        }
        _ => panic!("expected VaultSelectionRequired"),
    }
}

#[test]
fn schema_problems_are_listed_table_by_table() {
    let mut found: Vec<Vec<String>> = required_schema().into_iter().map(|(_, c)| c).collect();
    assert!(schema_issues(&found).is_empty());
    found[0] = Vec::new();
    found[2].retain(|c| c != "used_count");
    assert_eq!(
        schema_issues(&found),
        vec![
            "required table is missing: migrations".to_string(),
            "required column is missing: entry.used_count".to_string(),
        ]
    );
}

#[test]
fn exportable_schema_needs_no_issue_and_migration_one() {
    assert!(require_exportable_schema(&Vec::new(), Some(1)).is_ok());
    match require_exportable_schema(&vec!["x".to_string(), "y".to_string()], Some(1)) {
        Err(RescueError::InvalidDatabase(m)) => assert_eq!(m, "x; y"),
        _ => panic!("expected InvalidDatabase"),
    }
    assert!(matches!(
        require_exportable_schema(&Vec::new(), None),
        Err(RescueError::UnsupportedSchemaVersion(0))
    ));
    assert!(matches!(
        require_exportable_schema(&Vec::new(), Some(2)),
        Err(RescueError::UnsupportedSchemaVersion(2))
    ));
}

#[test]
fn integrity_passes_only_on_a_single_ok() {
    assert!(matches!(integrity(vec!["ok".to_string()]), Integrity::Intact));
    assert!(matches!(integrity(Vec::new()), Integrity::Failed { .. }));
    assert!(matches!(
        integrity(vec!["ok".to_string(), "ok".to_string()]),
        Integrity::Failed { .. }
    ));
}

#[test]
fn vault_inspection_lists_every_problem() {
    let mut v = vault("v1");
    v.version = 2;
    v.salt = vec![0; 15];
    v.nonce = vec![0; 23];
    v.ciphertext = vec![0; 47];
    v.kdf_time_cost = 99;
    let facts = VaultFacts {
        entry_trashed: vec![false, true, true],
        entry_lengths: vec![(Some(24), Some(16)), (Some(12), Some(40)), (None, Some(3))],
        blob_lengths: vec![(Some(24), Some(24), Some(47)), (None, None, None)],
        blob_ids: vec!["good".to_string(), "bad/id".to_string()],
        files_present: vec![false, true],
        kdf_refusal: Some("ignored while the limits refuse".to_string()),
    };
    let report = inspect_vault(v, facts);
    assert!(!report.compatible);
    assert_eq!(report.live_entries, 1);
    assert_eq!(report.trashed_entries, 2);
    assert_eq!(report.attachments, 2);
    assert_eq!(report.attachment_files_present, 0);
    assert_eq!(report.attachment_files_missing, 2);
    assert_eq!(
        report.issues,
        vec![
            "unsupported vault version: 2",
            "salt is 15 bytes; expected 16",
            "verifier nonce is 23 bytes; expected 24",
            "verifier ciphertext is 47 bytes; expected 48",
            "kdf_time_cost exceeds the safety limit of 20 iterations",
            "2 entry record(s) have invalid lengths",
            "1 attachment record(s) have invalid lengths",
            "attachment bad/id has an unsafe path component",
        ]
    );
}

#[test]
fn argon2_refusal_is_reported_when_limits_pass() {
    let facts = VaultFacts {
        entry_trashed: Vec::new(),
        entry_lengths: Vec::new(),
        blob_lengths: Vec::new(),
        blob_ids: Vec::new(),
        files_present: Vec::new(),
        kdf_refusal: Some("memory cost is too small".to_string()),
    };
    let report = inspect_vault(vault("v"), facts);
    assert_eq!(report.issues, vec!["memory cost is too small"]);
    assert!(!report.compatible);
}

#[test]
fn unsafe_vault_id_counts_every_attachment_missing() {
    let (present, missing, issues) =
        attachment_file_counts("..", &vec!["a".to_string(), "b".to_string()], &vec![true, true]);
    assert_eq!((present, missing), (0, 2));
    assert_eq!(issues, vec!["vault id cannot be represented safely as an attachment path"]);
}

#[test]
fn refused_entries_each_get_one_issue() {
    let mut short_nonce = entry("n");
    short_nonce.nonce = vec![0; 12];
    let mut short_ciphertext = entry("c");
    short_ciphertext.ciphertext = vec![0; 15];
    let rows = vec![
        short_nonce,
        short_ciphertext,
        entry("auth"),
        entry("json"),
        entry("array"),
        entry("reserved"),
        entry("good"),
    ];
    assert!(entry_precheck(&rows[0]).is_err());
    let opened = vec![
        None,
        None,
        Some(PayloadOutcome::AuthenticationFailed),
        Some(PayloadOutcome::InvalidJson("EOF while parsing".to_string())),
        Some(PayloadOutcome::Decoded(JsonValue::Array(Vec::new()))),
        Some(PayloadOutcome::Decoded(object(vec![("used_count", number(1)), ("id", text("x"))]))),
        Some(PayloadOutcome::Decoded(object(vec![("icon", JsonValue::Null)]))),
    ];
    let result = decide_entries(rows, opened);
    assert_eq!(result.entries.len(), 1);
    assert_eq!(result.entries[0].id, "good");
    assert_eq!(result.entries[0].used_at, Some(12));
    assert_eq!(result.entries[0].used_count, 3);
    let messages: Vec<(&str, &str, &str)> = result
        .issues
        .iter()
        .map(|i| (i.record_type, i.id.as_str(), i.message.as_str()))
        .collect();
    assert_eq!(
        messages,
        vec![
            ("entry", "n", "entry nonce is 12 bytes; expected 24"),
            ("entry", "c", "ciphertext is 15 bytes; expected at least 16"),
            ("entry", "auth", "authenticated decryption failed"),
            ("entry", "json", "decrypted payload is invalid JSON: EOF while parsing"),
            ("entry", "array", "decrypted payload is not a JSON object"),
            ("entry", "reserved", "decrypted payload contains reserved property id"),
        ]
    );
}

#[test]
fn first_file_reference_wins_and_unmatched_ones_are_inventoried() {
    let first = payload_of(vec![field(
        "file",
        typed(
            "file",
            JsonValue::Array(vec![
                file("zeta", Some("z.txt"), None),
                file("alpha", None, Some(3)),
                object(vec![("filename", text("no id"))]),
            ]),
        ),
    )]);
    let second = payload_of(vec![field(
        "file",
        typed("file", JsonValue::Array(vec![file("alpha", Some("other.txt"), None)])),
    )]);
    let candidates = file_candidates(&first);
    assert_eq!(candidates.len(), 2);
    let result = decide_entries(
        vec![entry("e1"), entry("e2")],
        vec![
            Some(PayloadOutcome::Decoded(JsonValue::Object(first))),
            Some(PayloadOutcome::Decoded(JsonValue::Object(second))),
        ],
    );
    let keys: Vec<&str> = result.references.items.iter().map(|(k, _)| k.as_str()).collect();
    assert_eq!(keys, vec!["alpha", "zeta"]);
    assert_eq!(result.references.items[0].1.filename, "attachment.bin");
    assert_eq!(result.references.items[0].1.size, Some(3));

    let (jobs, leftover) = attachment_jobs("vault", vec![blob("zeta"), blob("orphan")], result.references);
    assert_eq!(jobs[0].filename, "z.txt");
    assert_eq!(jobs[1].filename, "orphan.bin");
    let outcomes: Vec<AttachmentOutcome> = jobs.into_iter().map(|j| run(j, Script::default())).collect();
    let (items, recovered, issues) = recover_attachments(
        &outcomes,
        &vec!["zeta".to_string(), "orphan".to_string()],
        &leftover,
    );
    assert_eq!(recovered, 2);
    assert_eq!(items.len(), 3);
    assert_eq!(items[2].id, "alpha");
    assert_eq!(items[2].status, AttachmentStatus::MissingMetadata);
    assert_eq!(items[2].filename, "attachment.bin");
    assert_eq!(items[2].path, None);
    assert_eq!(issues.len(), 1);
    assert_eq!(issues[0].message, "attachment is referenced by an entry but has no database row");
}

#[test]
fn references_keep_key_order() {
    let mut references = References::new();
    for key in ["m", "a", "z", "a"] {
        references.insert_if_absent(
            key.to_string(),
            FileReference { filename: key.to_string(), mime_type: None, size: None },
        );
    }
    let keys: Vec<&str> = references.items.iter().map(|(k, _)| k.as_str()).collect();
    assert_eq!(keys, vec!["a", "m", "z"]);
    assert_eq!(references.take("m").unwrap().filename, "m");
    assert!(references.take("m").is_none());
}

#[test]
fn typed_values_fill_the_csv_columns() {
    let payload = payload_of(vec![
        field("title", typed("string", text("Bank"))),
        field("tags", typed("string_vec", JsonValue::Array(vec![text("a"), number(3), text("b")]))),
        field("note", typed("string_vec", JsonValue::Array(vec![text("wrong type")]))),
        field("username", typed("string", text("me"))),
        field("url", typed("string", text("https://example.com"))),
        field("title", typed("string", text("Bank 2"))),
        object(vec![("value", typed("string", text("no role")))]),
        field("card_cvv", typed("string", text("123"))),
    ]);
    let row = csv_row(&payload);
    assert_eq!(
        row,
        vec!["Bank 2", "a, b", "", "me", "", "https://example.com", "", "", "", "", "123"]
    );
    assert_eq!(string_value(&typed("string", text("x"))), Some("x".to_string()));
    assert_eq!(string_value(&typed("text", text("x"))), None);
    assert_eq!(string_vec_value(&typed("string_vec", text("x"))), None);
}

#[test]
fn totp_values_become_otpauth_uris() {
    let config = object(vec![
        ("secret", text("JBSWY3DP")),
        ("account", text("me@example.com")),
        ("issuer", text("Acme Co")),
        ("algorithm", text("sha256")),
        ("digits", number(8)),
    ]);
    assert_eq!(
        totp_value(&typed("totp", config)),
        Some(
            "otpauth://totp/Acme%20Co:me%40example%2Ecom?secret=JBSWY3DP&algorithm=SHA256&digits=8&period=30&issuer=Acme%20Co"
                .to_string()
        )
    );
    let plain = object(vec![("secret", text("S")), ("account", text("é"))]);
    assert_eq!(
        totp_value(&typed("totp", plain)),
        Some("otpauth://totp/%C3%A9?secret=S&algorithm=SHA1&digits=6&period=30".to_string())
    );
    let no_account = object(vec![("secret", text("S"))]);
    assert_eq!(totp_value(&typed("totp", no_account)), None);
}

#[derive(Default)]
struct Script {
    envelope_fails: bool,
    key_len: Option<usize>,
    read: Option<CiphertextRead>,
    content_fails: bool,
    write_error: Option<String>,
    plaintext_len: u64,
}

fn run(mut job: AttachmentJob, mut script: Script) -> AttachmentOutcome {
    let mut event = AttachmentEvent::Started;
    loop {
        event = match job.advance(event) {
            AttachmentStep::OpenEnvelope { nonce, ciphertext } => {
                assert_eq!((nonce.len(), ciphertext.len()), (24, 48));
                AttachmentEvent::EnvelopeOpened(if script.envelope_fails {
                    None
                } else {
                    Some(vec![0; script.key_len.unwrap_or(32)])
                })
            }
            AttachmentStep::ReadCiphertext => {
                AttachmentEvent::CiphertextLoaded(script.read.take().unwrap_or(CiphertextRead::Read))
            }
            AttachmentStep::OpenContent { key, nonce } => {
                assert_eq!((key.len(), nonce.len()), (32, 24));
                AttachmentEvent::ContentOpened(if script.content_fails {
                    None
                } else {
                    Some(script.plaintext_len)
                })
            }
            AttachmentStep::WritePlaintext { directory, filename } => {
                assert_eq!(directory, job.blob.id);
                assert!(!filename.is_empty());
                AttachmentEvent::Written(script.write_error.take())
            }
            AttachmentStep::Finished => return job.outcome(),
        };
    }
}

fn job(id: &str, reference: Option<FileReference>) -> AttachmentJob {
    AttachmentJob::new("vault", blob(id), reference)
}

fn outcome_of(outcome: &AttachmentOutcome) -> (AttachmentStatus, Option<String>, Option<String>) {
    (
        outcome.manifest.status,
        outcome.manifest.path.clone(),
        outcome.issue.as_ref().map(|i| i.message.clone()),
    )
}

#[test]
fn attachment_jobs_end_with_the_matching_status() {
    let unsafe_id = run(job("../x", None), Script::default());
    assert_eq!(
        outcome_of(&unsafe_id),
        (
            AttachmentStatus::InvalidMetadata,
            None,
            Some("record id cannot be represented safely as an attachment path".to_string())
        )
    );

    let mut short = blob("b");
    short.envelope_ciphertext = vec![0; 40];
    let short = run(AttachmentJob::new("vault", short, None), Script::default());
    assert_eq!(
        short.issue.unwrap().message,
        "attachment envelope ciphertext is 40 bytes; expected 48"
    );

    let envelope = run(job("b", None), Script { envelope_fails: true, ..Script::default() });
    assert_eq!(outcome_of(&envelope).0, AttachmentStatus::AuthenticationFailed);
    assert_eq!(outcome_of(&envelope).2.unwrap(), "attachment key authentication failed");

    let key = run(job("b", None), Script { key_len: Some(16), ..Script::default() });
    assert_eq!(outcome_of(&key).2.unwrap(), "decrypted attachment key is 16 bytes; expected 32");

    let unreadable = run(
        job("b", None),
        Script { read: Some(CiphertextRead::Failed("permission denied".to_string())), ..Script::default() },
    );
    assert_eq!(outcome_of(&unreadable).0, AttachmentStatus::MissingCiphertext);
    assert_eq!(outcome_of(&unreadable).2.unwrap(), "could not read ciphertext file: permission denied");

    let content = run(job("b", None), Script { content_fails: true, ..Script::default() });
    assert_eq!(outcome_of(&content).2.unwrap(), "attachment content authentication failed");

    let write = run(job("b", None), Script { write_error: Some("disk full".to_string()), ..Script::default() });
    assert_eq!(
        outcome_of(&write),
        (
            AttachmentStatus::InvalidMetadata,
            None,
            Some("could not write recovered attachment: disk full".to_string())
        )
    );

    let reference = FileReference { filename: "a/b.txt".to_string(), mime_type: Some("text/plain".to_string()), size: Some(10) };
    let sized = run(job("b", Some(reference)), Script { plaintext_len: 7, ..Script::default() });
    assert_eq!(
        outcome_of(&sized),
        (
            AttachmentStatus::Recovered,
            Some("attachments/b/a_b.txt".to_string()),
            Some("declared size is 10 bytes but recovered content is 7 bytes".to_string())
        )
    );
    assert_eq!(sized.manifest.filename, "a/b.txt");
    assert_eq!(sized.manifest.mime_type.as_deref(), Some("text/plain"));
    assert_eq!(sized.manifest.created_at, Some(20));

    let plain = run(job("b", None), Script::default());
    assert_eq!(outcome_of(&plain), (AttachmentStatus::Recovered, Some("attachments/b/b.bin".to_string()), None));
}

#[test]
fn vault_unlock_checks_come_before_decryption() {
    let mut v = vault("v");
    v.version = 3;
    assert!(matches!(
        unlock_parameters(&v),
        Err(RescueError::UnsupportedVaultVersion { version: 3, .. })
    ));
    let mut v = vault("v");
    v.salt = vec![0; 15];
    match unlock_parameters(&v) {
        Err(RescueError::InvalidDatabase(m)) => assert_eq!(m, "vault salt is 15 bytes; expected 16"),
        _ => panic!("expected InvalidDatabase"),
    }
    let mut v = vault("v");
    v.ciphertext = vec![0; 49];
    match unlock_parameters(&v) {
        Err(RescueError::InvalidDatabase(m)) => {
            assert_eq!(m, "vault verifier ciphertext is 49 bytes; expected 48")
        }
        _ => panic!("expected InvalidDatabase"),
    }
    let params = unlock_parameters(&vault("v")).ok().unwrap();
    assert_eq!((params.salt.len(), params.verifier_nonce.len()), (16, 24));
    assert_eq!(params.kdf.mem_cost, 65536);
}

#[test]
fn manifest_counts_skipped_entries_and_warns_for_csv() {
    let manifest = build_manifest(vault("v"), ExportKind::Csv, 5, 3, Vec::new(), Vec::new(), Vec::new(), 99, "0.1.0");
    assert_eq!(manifest.format, "buddy-rescue-export-v1");
    assert_eq!(manifest.entries.path, "entries.csv");
    assert_eq!(manifest.entries.format, "csv");
    assert_eq!((manifest.entries.recovered, manifest.entries.skipped), (3, 2));
    assert_eq!(manifest.warnings, vec![CSV_WARNING.to_string()]);
    let manifest = build_manifest(vault("v"), ExportKind::Json, 1, 3, Vec::new(), Vec::new(), Vec::new(), 99, "0.1.0");
    assert_eq!(manifest.entries.skipped, 0);
    assert!(manifest.warnings.is_empty());
    assert_eq!(ExportKind::Json.filename(), "entries.json");
    assert_eq!(ExportKind::Json.label(), "json");
}

fn marker(format: &str) -> Option<Vec<u8>> {
    Some(format!("{{\n  \"format\": \"{format}\",\n  \"issues\": []\n}}\n").into_bytes())
}

#[test]
fn destinations_are_replaced_only_when_they_are_previous_exports() {
    let out = PathBuf::from("out");
    assert!(matches!(plan_output(out.clone(), false, None), Ok(OutputPlan::Move)));
    let previous = || ExistingOutput { is_symlink: Some(false), is_dir: true, marker: marker("buddy-rescue-export-v1") };
    match plan_output(out.clone(), false, Some(previous())) {
        Err(RescueError::OutputExists(p)) => assert_eq!(p, out),
        _ => panic!("expected OutputExists"),
    }
    assert!(matches!(plan_output(out.clone(), true, Some(previous())), Ok(OutputPlan::Replace)));
    for existing in [
        ExistingOutput { is_symlink: Some(true), is_dir: true, marker: marker("buddy-rescue-export-v1") },
        ExistingOutput { is_symlink: None, is_dir: true, marker: marker("buddy-rescue-export-v1") },
        ExistingOutput { is_symlink: Some(false), is_dir: false, marker: marker("buddy-rescue-export-v1") },
        ExistingOutput { is_symlink: Some(false), is_dir: true, marker: marker("something-else") },
        ExistingOutput { is_symlink: Some(false), is_dir: true, marker: None },
        ExistingOutput { is_symlink: Some(false), is_dir: true, marker: Some(b"not json".to_vec()) },
        ExistingOutput { is_symlink: Some(false), is_dir: true, marker: Some(b"[\"buddy-rescue-export-v1\"]".to_vec()) },
    ] {
        assert!(validate_previous_export(out.clone(), &existing).is_err());
        assert!(matches!(
            plan_output(out.clone(), true, Some(existing)),
            Err(RescueError::UnsafeReplacement(_))
        ));
    }
}

#[test]
fn exit_statuses_follow_the_documented_table() {
    assert_eq!(inspection_exit_status(true), 0);
    assert_eq!(inspection_exit_status(false), 2);
    let clean = buddy_rescue::export::export_summary(PathBuf::from("o"), ExportKind::Json, 1, 0, 0);
    assert!(clean.warning.is_none());
    assert_eq!(export_exit_status(&clean), 0);
    let partial = buddy_rescue::export::export_summary(PathBuf::from("o"), ExportKind::Json, 1, 0, 1);
    assert_eq!(export_exit_status(&partial), 2);
}

#[test]
fn only_one_line_ending_is_removed() {
    for (input, expected) in [
        ("secret\r\n", "secret"),
        ("secret", "secret"),
        ("secret\n\n", "secret\n"),
        ("secret\r", "secret\r"),
        ("\n", ""),
        ("", ""),
    ] {
        let mut s = input.to_string();
        strip_line_ending(&mut s);
        assert_eq!(s, expected);
    }
}

#[test]
fn plaintexts_are_decoded_before_the_entries_are_decided() {
    let rows = vec![entry("auth"), entry("json"), entry("array"), entry("reserved"), entry("good")];
    let plaintexts = vec![
        None,
        Some(b"{".to_vec()),
        Some(b"[1, 2]".to_vec()),
        Some(b"{\"deleted_at\": 1}".to_vec()),
        Some(b"{\"icon\": null, \"groups\": []}".to_vec()),
    ];
    let result = decrypt_entries(rows, &plaintexts);
    assert_eq!(result.entries.len(), 1);
    assert_eq!(result.entries[0].id, "good");
    let keys: Vec<&str> = result.entries[0].payload.iter().map(|(k, _)| k.as_str()).collect();
    assert_eq!(keys, vec!["groups", "icon"]);
    let messages: Vec<&str> = result.issues.iter().map(|i| i.message.as_str()).collect();
    assert_eq!(
        messages,
        vec![
            "authenticated decryption failed",
            "decrypted payload is invalid JSON: EOF while parsing an object at line 1 column 1",
            "decrypted payload is not a JSON object",
            "decrypted payload contains reserved property deleted_at",
        ]
    );
}

#[test]
fn plaintext_numbers_keep_their_text_and_value() {
    match open_payload(&Some(b"{\"size\": 19, \"ratio\": 1.5, \"neg\": -2}".to_vec())) {
        Some(PayloadOutcome::Decoded(JsonValue::Object(members))) => {
            let find = |key: &str| members.iter().find(|(k, _)| k == key).map(|(_, v)| v);
            match find("size") {
                Some(JsonValue::Number(n)) => assert_eq!((n.text.as_str(), n.unsigned), ("19", Some(19))),
                _ => panic!("size is a number"),
            }
            match find("ratio") {
                Some(JsonValue::Number(n)) => assert_eq!((n.text.as_str(), n.unsigned), ("1.5", None)),
                _ => panic!("ratio is a number"),
            }
            match find("neg") {
                Some(JsonValue::Number(n)) => assert_eq!((n.text.as_str(), n.unsigned), ("-2", None)),
                _ => panic!("neg is a number"),
            }
        }
        _ => panic!("expected a decoded object"),
    }
    assert!(matches!(open_payload(&None), Some(PayloadOutcome::AuthenticationFailed)));
}

#[test]
fn choosing_a_vault_by_id_ignores_the_other_vaults() {
    let alone = choose_vault(vec![vault("a")], Some("a")).ok().unwrap();
    let among = choose_vault(vec![vault("b"), vault("a"), vault("c")], Some("a")).ok().unwrap();
    assert_eq!((alone.id.as_str(), alone.name.as_str()), (among.id.as_str(), among.name.as_str()));
    assert!(matches!(choose_vault(vec![vault("b")], Some("a")), Err(RescueError::VaultNotFound(_))));
}
