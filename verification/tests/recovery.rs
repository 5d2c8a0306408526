use std::path::PathBuf;

use buddy_rescue::RescueError;
use buddy_rescue::attachments::{
    AttachmentEvent, AttachmentJob, AttachmentStep, CiphertextRead, attachment_jobs,
    recover_attachments,
};
use buddy_rescue::database::{DatabaseSnapshot, VaultFacts, choose_vault, inspect, required_schema};
use buddy_rescue::entries::{decrypt_entries, entry_precheck};
use buddy_rescue::export::{export_summary, strip_line_ending};
use buddy_rescue::fields::{csv_header, csv_row};
use buddy_rescue::json::{JsonNumber, JsonValue};
use buddy_rescue::model::{AttachmentStatus, BlobRecord, EntryRecord, ExportKind, VaultRecord};

const ENTRY_ID: &str = "22222222-2222-4222-8222-222222222222";
const BLOB_ID: &str = "33333333-3333-4333-8333-333333333333";
const PERSONAL: &str = "11111111-1111-4111-8111-111111111111";
const WORK: &str = "aaaaaaaa-aaaa-4aaa-8aaa-aaaaaaaaaaaa";

fn text(s: &str) -> JsonValue {
    JsonValue::Str(s.to_string())
}

fn number(n: u64) -> JsonValue {
    JsonValue::Number(JsonNumber { text: n.to_string(), unsigned: Some(n) })
}

fn object(members: Vec<(&str, JsonValue)>) -> JsonValue {
    JsonValue::Object(members.into_iter().map(|(k, v)| (k.to_string(), v)).collect())
}

fn members(value: JsonValue) -> Vec<(String, JsonValue)> {
    match value {
        JsonValue::Object(m) => m,
        _ => panic!("not an object"),
    }
}

/// The entry payload each fixture vault stores.
fn payload(title: &str, entry_password: &str, attachment_len: u64) -> JsonValue {
    object(vec![
        ("icon", JsonValue::Null),
        (
            "groups",
            JsonValue::Array(vec![object(vec![
                ("id", text("group")),
                (
                    "fields",
                    JsonValue::Array(vec![
                        object(vec![
                            ("id", text("title")),
                            ("role", text("title")),
                            ("name", text("Title")),
                            ("value", object(vec![("type", text("string")), ("value", text(title))])),
                        ]),
                        object(vec![
                            ("id", text("password")),
                            ("role", text("password")),
                            ("name", text("Password")),
                            (
                                "value",
                                object(vec![("type", text("string")), ("value", text(entry_password))]),
                            ),
                        ]),
                        object(vec![
                            ("id", text("file")),
                            ("role", text("file")),
                            ("name", text("Files")),
                            (
                                "value",
                                object(vec![
                                    ("type", text("file")),
                                    (
                                        "value",
                                        JsonValue::Array(vec![object(vec![
                                            ("blob_id", text(BLOB_ID)),
                                            ("filename", text("recovery.txt")),
                                            ("mime_type", text("text/plain")),
                                            ("size", number(attachment_len)),
                                        ])]),
                                    ),
                                ]),
                            ),
                        ]),
                    ]),
                ),
            ])]),
        ),
    ])
}

/// The JSON text of a value, as the vault stores it encrypted.
fn json_text(value: &JsonValue) -> String {
    match value {
        JsonValue::Null => "null".to_string(),
        JsonValue::Bool(b) => b.to_string(),
        JsonValue::Number(n) => n.text.clone(),
        JsonValue::Str(s) => serde_json::to_string(s).unwrap(),
        JsonValue::Array(items) => {
            format!("[{}]", items.iter().map(json_text).collect::<Vec<_>>().join(","))
        }
        JsonValue::Object(members) => format!(
            "{{{}}}",
            members
                .iter()
                .map(|(k, v)| format!("{}:{}", serde_json::to_string(k).unwrap(), json_text(v)))
                .collect::<Vec<_>>()
                .join(",")
        ),
    }
}

/// The plaintext of the fixture entry.
fn plaintext(title: &str, entry_password: &str, attachment_len: u64) -> Option<Vec<u8>> {
    Some(json_text(&payload(title, entry_password, attachment_len)).into_bytes())
}

fn vault(id: &str, name: &str, timestamp: i64) -> VaultRecord {
    VaultRecord {
        id: id.to_string(),
        salt: vec![7; 16],
        nonce: vec![8; 24],
        ciphertext: vec![9; 48],
        name: name.to_string(),
        color: Some("#445566".to_string()),
        hint_present: false,
        biometrics_enabled: false,
        kdf_algo: "argon2id".to_string(),
        kdf_mem_cost: 8 * 1024,
        kdf_time_cost: 1,
        kdf_parallelism: 1,
        kdf_version: 19,
        password_changed_at: timestamp,
        version: 1,
        created_at: timestamp,
        updated_at: timestamp,
    }
}

/// What the fixture database holds about each vault: one live entry, one attachment whose
/// file is present.
fn facts() -> VaultFacts {
    VaultFacts {
        entry_trashed: vec![false],
        entry_lengths: vec![(Some(24), Some(200))],
        blob_lengths: vec![(Some(24), Some(24), Some(48))],
        blob_ids: vec![BLOB_ID.to_string()],
        files_present: vec![true],
        kdf_refusal: None,
    }
}

fn complete_schema() -> Vec<Vec<String>> {
    required_schema().into_iter().map(|(_, columns)| columns).collect()
}

fn entry_row(timestamp: i64) -> EntryRecord {
    EntryRecord {
        id: ENTRY_ID.to_string(),
        nonce: vec![1; 24],
        ciphertext: vec![2; 120],
        created_at: timestamp,
        updated_at: timestamp,
        used_at: None,
        used_count: 0,
        deleted_at: None,
    }
}

fn blob_row(timestamp: i64) -> BlobRecord {
    BlobRecord {
        id: BLOB_ID.to_string(),
        entry_id: Some(ENTRY_ID.to_string()),
        nonce: vec![3; 24],
        envelope_nonce: vec![4; 24],
        envelope_ciphertext: vec![5; 48],
        created_at: timestamp,
        updated_at: timestamp,
    }
}

#[test]
fn inspect_reports_each_vault_and_scoped_attachment() {
    let report = inspect(DatabaseSnapshot {
        integrity_messages: vec!["ok".to_string()],
        schema_version: Some(1),
        schema_columns: complete_schema(),
        attachments_directory: PathBuf::from("attachments"),
        vaults: vec![
            (vault(PERSONAL, "Personal", 1_700_000_000), facts()),
            (vault(WORK, "Work", 1_700_000_100), facts()),
        ],
    });

    assert!(report.compatible);
    assert_eq!(report.schema_version, Some(1));
    assert_eq!(report.vaults.len(), 2);
    for vault in &report.vaults {
        assert_eq!(vault.live_entries, 1);
        assert_eq!(vault.trashed_entries, 0);
        assert_eq!(vault.attachments, 1);
        assert_eq!(vault.attachment_files_present, 1);
        assert_eq!(vault.attachment_files_missing, 0);
    }
}

#[test]
fn export_requires_a_vault_id_when_database_contains_several() {
    let vaults = vec![
        vault(PERSONAL, "Personal", 1_700_000_000),
        vault(WORK, "Work", 1_700_000_100),
    ];
    let error = choose_vault(vaults, None).unwrap_err();

    assert!(matches!(error, RescueError::VaultSelectionRequired(_)));
}

#[test]
fn json_export_uses_only_the_selected_vaults_keys_and_records() {
    let vaults = vec![
        vault(PERSONAL, "Personal", 1_700_000_000),
        vault(WORK, "Work", 1_700_000_100),
    ];
    let selected = choose_vault(vaults, Some(PERSONAL)).unwrap();
    assert_eq!(selected.id, PERSONAL);

    let row = entry_row(1_700_000_000);
    assert!(entry_precheck(&row).is_ok());
    let decrypted = decrypt_entries(
        vec![row],
        &vec![plaintext("Personal Login", "personal-secret", 19)],
    );
    assert_eq!(decrypted.entries.len(), 1);
    assert_eq!(decrypted.issues.len(), 0);
    assert_eq!(decrypted.entries[0].id, ENTRY_ID);
    let row = csv_row(&decrypted.entries[0].payload);
    assert_eq!(row[0], "Personal Login");
    assert_eq!(row[4], "personal-secret");

    let (jobs, leftover) = attachment_jobs(PERSONAL, vec![blob_row(1_700_000_000)], decrypted.references);
    assert_eq!(jobs.len(), 1);
    assert_eq!(jobs[0].filename, "recovery.txt");
    let outcome = finish(jobs.into_iter().next().unwrap(), CiphertextRead::Read, 19);
    assert_eq!(outcome.manifest.status, AttachmentStatus::Recovered);
    assert_eq!(
        outcome.manifest.path.as_deref(),
        Some("attachments/33333333-3333-4333-8333-333333333333/recovery.txt")
    );
    assert!(outcome.issue.is_none());
    let (items, recovered, issues) =
        recover_attachments(&vec![outcome], &vec![BLOB_ID.to_string()], &leftover);
    assert_eq!(items.len(), 1);
    assert_eq!(recovered, 1);
    assert_eq!(issues.len(), 0);
}

/// Drives a job to its end with the given ciphertext result and plaintext length.
fn finish(mut job: AttachmentJob, read: CiphertextRead, plaintext_len: u64) -> buddy_rescue::attachments::AttachmentOutcome {
    let mut event = AttachmentEvent::Started;
    let mut read = Some(read);
    loop {
        event = match job.advance(event) {
            AttachmentStep::OpenEnvelope { .. } => AttachmentEvent::EnvelopeOpened(Some(vec![6; 32])),
            AttachmentStep::ReadCiphertext => AttachmentEvent::CiphertextLoaded(read.take().unwrap()),
            AttachmentStep::OpenContent { .. } => AttachmentEvent::ContentOpened(Some(plaintext_len)),
            AttachmentStep::WritePlaintext { .. } => AttachmentEvent::Written(None),
            AttachmentStep::Finished => return job.outcome(),
        };
    }
}

#[test]
fn csv_export_matches_buddys_compatibility_columns() {
    let summary = export_summary(PathBuf::from("csv-export"), ExportKind::Csv, 1, 1, 0);
    assert!(summary.warning.is_some());
    assert_eq!(
        csv_header(),
        vec![
            "Title",
            "Tags",
            "Notes",
            "Username",
            "Password",
            "URL",
            "Two-Factor Secret",
            "Cardholder Name",
            "Card Number",
            "Card Expiration",
            "Card CVV",
        ]
    );
    let row = csv_row(&members(payload("Work Login", "work-secret", 15)));
    assert_eq!(&row[0], "Work Login");
    assert_eq!(&row[4], "work-secret");
}

#[test]
fn missing_attachment_does_not_block_entry_recovery() {
    let decrypted = decrypt_entries(
        vec![entry_row(1_700_000_000)],
        &vec![plaintext("Personal Login", "personal-secret", 19)],
    );
    let (jobs, leftover) = attachment_jobs(PERSONAL, vec![blob_row(1_700_000_000)], decrypted.references);
    let outcome = finish(
        jobs.into_iter().next().unwrap(),
        CiphertextRead::NotFound("attachments/x".to_string()),
        0,
    );
    let (items, recovered, issues) =
        recover_attachments(&vec![outcome], &vec![BLOB_ID.to_string()], &leftover);

    assert_eq!(decrypted.entries.len(), 1);
    assert_eq!(recovered, 0);
    assert_eq!(decrypted.issues.len() + issues.len(), 1);
    assert_eq!(items[0].status, AttachmentStatus::MissingCiphertext);
    assert_eq!(issues[0].message, "ciphertext file is missing: attachments/x");
}

#[test]
fn command_line_export_reads_the_password_from_standard_input() {
    let mut password = "personal-password\n".to_string();
    strip_line_ending(&mut password);
    assert_eq!(password, "personal-password");
}

#[test]
fn two_runs_over_the_same_vault_records_agree() {
    let run = |other: Vec<VaultRecord>| {
        let mut vaults = other;
        vaults.push(vault(PERSONAL, "Personal", 1_700_000_000));
        let selected = choose_vault(vaults, Some(PERSONAL)).unwrap();
        let decrypted = decrypt_entries(
            vec![entry_row(1_700_000_000)],
            &vec![plaintext("Personal Login", "personal-secret", 19)],
        );
        let (jobs, _) = attachment_jobs(&selected.id, vec![blob_row(1_700_000_000)], decrypted.references);
        (selected.name, decrypted.entries.len(), decrypted.issues.len(), jobs[0].filename.clone())
    };
    let alone = run(Vec::new());
    let among = run(vec![vault(WORK, "Work", 1_700_000_100)]);
    assert_eq!(alone, among);
    assert_eq!(alone, ("Personal".to_string(), 1, 0, "recovery.txt".to_string()));
}
