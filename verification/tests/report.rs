use std::path::PathBuf;

use buddy_rescue::database::{DatabaseSnapshot, VaultFacts, inspect, required_schema};
use buddy_rescue::export::export_summary;
use buddy_rescue::model::{ExportKind, Integrity, VaultRecord};
use buddy_rescue::report::{export_messages, inspection_lines};

fn vault() -> VaultRecord {
    VaultRecord {
        id: "v1".to_string(),
        salt: vec![0; 16],
        nonce: vec![0; 24],
        ciphertext: vec![0; 48],
        name: "Personal".to_string(),
        color: None,
        hint_present: true,
        biometrics_enabled: false,
        kdf_algo: "argon2id".to_string(),
        kdf_mem_cost: 8192,
        kdf_time_cost: 1,
        kdf_parallelism: 1,
        kdf_version: 19,
        password_changed_at: 1,
        version: 1,
        created_at: 1,
        updated_at: 1,
    }
}

fn facts() -> VaultFacts {
    VaultFacts {
        entry_trashed: vec![false, true],
        entry_lengths: vec![(Some(24), Some(40)), (Some(24), Some(40))],
        blob_lengths: vec![(Some(24), Some(24), Some(48))],
        blob_ids: vec!["b1".to_string()],
        files_present: vec![false],
        kdf_refusal: None,
    }
}

#[test]
fn inspection_text_lists_vaults_and_issues() {
    let report = inspect(DatabaseSnapshot {
        integrity_messages: vec!["ok".to_string()],
        schema_version: Some(1),
        schema_columns: required_schema().into_iter().map(|(_, c)| c).collect(),
        attachments_directory: PathBuf::from("/data/attachments"),
        vaults: vec![(vault(), facts())],
    });
    assert!(report.compatible);
    assert!(matches!(report.integrity, Integrity::Intact));
    let lines = inspection_lines(&report, "/data/attachments");
    assert_eq!(
        lines,
        vec![
            "Format: buddy-vault-v1",
            "SQLite integrity: ok",
            "Schema migration: 1",
            "Attachments: /data/attachments",
            "Vaults: 1",
            "",
            "Personal",
            "  ID: v1",
            "  Vault version: 1",
            "  Entries: 1 live, 1 trashed",
            "  Attachments: 1 records, 0 present, 1 missing",
            "  KDF: argon2id · 8192 KiB · t=1 · p=1 · version 19",
            "  Password hint: present",
            "  Status: compatible",
        ]
    );
}

#[test]
fn damaged_database_is_reported_without_vaults() {
    let mut columns: Vec<Vec<String>> = required_schema().into_iter().map(|(_, c)| c).collect();
    columns[1] = Vec::new();
    let report = inspect(DatabaseSnapshot {
        integrity_messages: vec!["row 3 missing from index".to_string()],
        schema_version: None,
        schema_columns: columns,
        attachments_directory: PathBuf::from("a"),
        vaults: vec![(vault(), facts())],
    });
    assert!(!report.compatible);
    assert!(report.vaults.is_empty());
    assert_eq!(
        report.issues,
        vec![
            "required table is missing: vault",
            "schema migration unknown is not supported by this build",
        ]
    );
    assert_eq!(
        inspection_lines(&report, "a"),
        vec![
            "Format: buddy-vault-v1",
            "SQLite integrity: failed",
            "  - row 3 missing from index",
            "Schema migration: unknown",
            "Attachments: a",
            "Vaults: none readable",
            "Issue: required table is missing: vault",
            "Issue: schema migration unknown is not supported by this build",
        ]
    );
}

#[test]
fn export_messages_mention_warnings_and_issues() {
    let summary = export_summary(PathBuf::from("out"), ExportKind::Csv, 4, 2, 3);
    let (out, err) = export_messages(&summary, "out", "issues.json");
    assert_eq!(out, vec!["Recovered 4 entries and 2 attachments to out"]);
    assert_eq!(err.len(), 2);
    assert!(err[0].starts_with("warning: CSV is a compatibility format"));
    assert_eq!(err[1], "warning: 3 record issue(s) are documented in issues.json");
    let quiet = export_summary(PathBuf::from("out"), ExportKind::Json, 1, 0, 0);
    let (_, err) = export_messages(&quiet, "out", "issues.json");
    assert!(err.is_empty());
}
