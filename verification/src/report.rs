//! The human-readable text of the command's reports.
use vstd::prelude::*;

use crate::model::{ExportSummary, Inspection, Integrity, VaultInspection};
use crate::text::{concat2, decimal_i64, decimal_u64, owned, spec_decimal, spec_decimal_int, views};

verus! {

/// Each text prefixed, in order.
pub open spec fn prefixed(prefix: Seq<char>, items: Seq<Seq<char>>) -> Seq<Seq<char>> {
    items.map_values(|s: Seq<char>| prefix + s)
}

/// The lines that describe one vault.
pub open spec fn spec_vault_lines(v: VaultInspection) -> Seq<Seq<char>> {
    seq![
        Seq::<char>::empty(),
        v.name@,
        "  ID: "@ + v.id@,
        "  Vault version: "@ + spec_decimal_int(v.version as int),
        "  Entries: "@ + spec_decimal(v.live_entries as nat) + " live, "@
            + spec_decimal(v.trashed_entries as nat) + " trashed"@,
        "  Attachments: "@ + spec_decimal(v.attachments as nat) + " records, "@
            + spec_decimal(v.attachment_files_present as nat) + " present, "@
            + spec_decimal(v.attachment_files_missing as nat) + " missing"@,
        "  KDF: "@ + v.kdf.algorithm@ + " · "@ + spec_decimal_int(v.kdf.memory_kib as int) + " KiB · t="@
            + spec_decimal_int(v.kdf.iterations as int) + " · p="@ + spec_decimal_int(v.kdf.parallelism as int)
            + " · version "@ + spec_decimal_int(v.kdf.version as int),
        "  Password hint: "@ + if v.hint_present { "present"@ } else { "none"@ },
        "  Status: "@ + if v.compatible { "compatible"@ } else { "attention required"@ },
    ] + prefixed("    - "@, views(v.issues@))
}

/// The lines of all vaults, vault after vault.
pub open spec fn spec_vaults_lines(vs: Seq<VaultInspection>) -> Seq<Seq<char>>
    decreases vs.len(),
{
    if vs.len() == 0 {
        Seq::empty()
    } else {
        spec_vaults_lines(vs.drop_last()) + spec_vault_lines(vs.last())
    }
}

/// The lines about SQLite's integrity check.
pub open spec fn spec_integrity_lines(i: Integrity) -> Seq<Seq<char>> {
    match i {
        Integrity::Intact => seq!["SQLite integrity: ok"@],
        Integrity::Failed { messages } => seq!["SQLite integrity: failed"@] + prefixed("  - "@, views(messages@)),
    }
}

/// The text report of an inspection, line by line; `directory` is how the attachment tree's
/// path is displayed.
pub open spec fn spec_inspection_lines(r: Inspection, directory: Seq<char>) -> Seq<Seq<char>> {
    seq!["Format: "@ + r.format@]
    + spec_integrity_lines(r.integrity)
    + seq![
        "Schema migration: "@ + match r.schema_version {
            Some(v) => spec_decimal_int(v as int),
            None => "unknown"@,
        },
        "Attachments: "@ + directory,
        if r.vaults@.len() == 0 { "Vaults: none readable"@ } else { "Vaults: "@ + spec_decimal(r.vaults@.len()) },
    ]
    + spec_vaults_lines(r.vaults@)
    + prefixed("Issue: "@, views(r.issues@))
}

fn push_line(lines: &mut Vec<String>, line: String)
    ensures
        views(final(lines)@) == views(old(lines)@).push(line@),
{
    lines.push(line);
    assert(views(lines@) =~= views(old(lines)@).push(line@));
}

fn push_prefixed(lines: &mut Vec<String>, prefix: &str, items: &Vec<String>)
    ensures
        views(final(lines)@) == views(old(lines)@) + prefixed(prefix@, views(items@)),
{
    let ghost start = views(lines@);
    let mut i: usize = 0;
    while i < items.len()
        invariant
            i <= items.len(),
            views(lines@) == start + prefixed(prefix@, views(items@.take(i as int))),
        decreases items.len() - i,
    {
        push_line(lines, concat2(prefix, items[i].as_str()));
        i = i + 1;
        assert(views(lines@) =~= start + prefixed(prefix@, views(items@.take(i as int))));
    }
    assert(items@.take(items.len() as int) =~= items@);
}

fn vault_lines(lines: &mut Vec<String>, v: &VaultInspection)
    ensures
        views(final(lines)@) == views(old(lines)@) + spec_vault_lines(*v),
{
    let ghost start = views(lines@);
    push_line(lines, String::new());
    push_line(lines, v.name.clone());
    push_line(lines, concat2("  ID: ", v.id.as_str()));
    push_line(lines, concat2("  Vault version: ", decimal_i64(v.version).as_str()));
    let mut entries = concat2("  Entries: ", decimal_u64(v.live_entries).as_str());
    entries.append(" live, ");
    entries.append(decimal_u64(v.trashed_entries).as_str());
    entries.append(" trashed");
    push_line(lines, entries);
    let mut attachments = concat2("  Attachments: ", decimal_u64(v.attachments).as_str());
    attachments.append(" records, ");
    attachments.append(decimal_u64(v.attachment_files_present).as_str());
    attachments.append(" present, ");
    attachments.append(decimal_u64(v.attachment_files_missing).as_str());
    attachments.append(" missing");
    push_line(lines, attachments);
    let mut kdf = concat2("  KDF: ", v.kdf.algorithm.as_str());
    kdf.append(" · ");
    kdf.append(decimal_i64(v.kdf.memory_kib).as_str());
    kdf.append(" KiB · t=");
    kdf.append(decimal_i64(v.kdf.iterations).as_str());
    kdf.append(" · p=");
    kdf.append(decimal_i64(v.kdf.parallelism).as_str());
    kdf.append(" · version ");
    kdf.append(decimal_i64(v.kdf.version).as_str());
    push_line(lines, kdf);
    push_line(lines, concat2("  Password hint: ", if v.hint_present { "present" } else { "none" }));
    push_line(lines, concat2("  Status: ", if v.compatible { "compatible" } else { "attention required" }));
    push_prefixed(lines, "    - ", &v.issues);
    assert(views(lines@) =~= start + spec_vault_lines(*v));
}

/// The text report of an inspection, one string per printed line; `directory` is the
/// displayed path of the attachment tree.
pub fn inspection_lines(report: &Inspection, directory: &str) -> (r: Vec<String>)
    ensures
        views(r@) == spec_inspection_lines(*report, directory@),
{
    let mut lines: Vec<String> = Vec::new();
    push_line(&mut lines, concat2("Format: ", report.format));
    match &report.integrity {
        Integrity::Intact => push_line(&mut lines, owned("SQLite integrity: ok")),
        Integrity::Failed { messages } => {
            push_line(&mut lines, owned("SQLite integrity: failed"));
            push_prefixed(&mut lines, "  - ", messages);
        },
    }
    let version = match report.schema_version {
        Some(v) => decimal_i64(v),
        None => owned("unknown"),
    };
    push_line(&mut lines, concat2("Schema migration: ", version.as_str()));
    push_line(&mut lines, concat2("Attachments: ", directory));
    if report.vaults.len() == 0 {
        push_line(&mut lines, owned("Vaults: none readable"));
    } else {
        push_line(&mut lines, concat2("Vaults: ", decimal_u64(report.vaults.len() as u64).as_str()));
    }
    let ghost before_vaults = views(lines@);
    let mut i: usize = 0;
    while i < report.vaults.len()
        invariant
            i <= report.vaults.len(),
            views(lines@) == before_vaults + spec_vaults_lines(report.vaults@.take(i as int)),
        decreases report.vaults.len() - i,
    {
        assert(report.vaults@.take(i + 1).drop_last() =~= report.vaults@.take(i as int));
        vault_lines(&mut lines, &report.vaults[i]);
        i = i + 1;
        assert(views(lines@) =~= before_vaults + spec_vaults_lines(report.vaults@.take(i as int)));
    }
    assert(report.vaults@.take(report.vaults.len() as int) =~= report.vaults@);
    push_prefixed(&mut lines, "Issue: ", &report.issues);
    assert(views(lines@) =~= spec_inspection_lines(*report, directory@));
    lines
}

/// What the export command prints: the lines for standard output and those for standard
/// error; `output` is the displayed path of the export and `manifest_file` the name of its
/// manifest file.
pub fn export_messages(summary: &ExportSummary, output: &str, manifest_file: &str) -> (r: (Vec<String>, Vec<String>))
    ensures
        views(r.0@) == seq!["Recovered "@ + spec_decimal(summary.entries as nat) + " entries and "@
            + spec_decimal(summary.attachments as nat) + " attachments to "@ + output@],
        views(r.1@) == (match summary.warning {
            Some(w) => seq!["warning: "@ + w@],
            None => Seq::<Seq<char>>::empty(),
        }) + (if summary.issues == 0 {
            Seq::<Seq<char>>::empty()
        } else {
            seq!["warning: "@ + spec_decimal(summary.issues as nat)
                + " record issue(s) are documented in "@ + manifest_file@]
        }),
{
    let mut out: Vec<String> = Vec::new();
    let mut line = concat2("Recovered ", decimal_u64(summary.entries as u64).as_str());
    line.append(" entries and ");
    line.append(decimal_u64(summary.attachments as u64).as_str());
    line.append(" attachments to ");
    line.append(output);
    push_line(&mut out, line);
    assert(views(out@) =~= seq![line@]);
    let mut err: Vec<String> = Vec::new();
    match summary.warning {
        Some(w) => push_line(&mut err, concat2("warning: ", w)),
        None => {},
    }
    let ghost first = views(err@);
    if summary.issues != 0 {
        let mut m = concat2("warning: ", decimal_u64(summary.issues as u64).as_str());
        m.append(" record issue(s) are documented in ");
        m.append(manifest_file);
        push_line(&mut err, m);
    }
    proof {
        assert(first =~= (match summary.warning {
            Some(w) => seq!["warning: "@ + w@],
            None => Seq::<Seq<char>>::empty(),
        }));
    }
    assert(views(err@) =~= first + (if summary.issues == 0 {
        Seq::<Seq<char>>::empty()
    } else {
        seq!["warning: "@ + spec_decimal(summary.issues as nat)
            + " record issue(s) are documented in "@ + manifest_file@]
    }));
    (out, err)
}

} // verus!
