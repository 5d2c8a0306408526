//! Properties of the library as a whole, stated over the specifications the functions meet.
use vstd::prelude::*;

use crate::attachments::{AttachmentJob, AttachmentOutcome, count_recovered, missing_manifest, outcome_manifests, is_entry_issue, job_view,
    lemma_sorted_keys_unique, starts_job};
use crate::database::{DatabaseSnapshot, describes_database, first_with_id, snapshot_schema_issues,
    spec_inspection_issues, vaults_with_id};
use crate::entries::{DecryptedEntries, Opening, decrypted_as, entry_failure, spec_decrypt};
use crate::export::{Manifest, describes_manifest, spec_strip_line_ending};
use crate::fields::{csv_slot, spec_csv_header, spec_csv_row, spec_totp_value};
use crate::json::{JsonValue, spec_as_u64, spec_get, spec_get_str, spec_lookup, spec_member_str};
use crate::model::{AttachmentManifest, AttachmentStatus, BlobRecord, EntryRecord, ExportEntry, ExportIssue, FileReference,
    ExportKind, Inspection, SUPPORTED_SCHEMA_VERSION, VaultRecord};
use crate::paths::{TrimClass, filename_char, forbidden_in_component, in_class, spec_safe_component,
    spec_sanitize_filename, trim_both, trim_end, trim_start};
use crate::refs::{has_key, holds, item_view, lemma_has_key_holds};
use crate::text::{spec_decimal, spec_is_whitespace, views};

verus! {

proof fn lemma_trim_start_suffix(s: Seq<char>, class: TrimClass)
    ensures
        exists|k: int| 0 <= k <= s.len() && trim_start(s, class) == s.skip(k),
        trim_start(s, class).len() > 0 ==> !in_class(trim_start(s, class)[0], class),
    decreases s.len(),
{
    if s.len() > 0 && in_class(s[0], class) {
        lemma_trim_start_suffix(s.drop_first(), class);
        let k = choose|k: int| 0 <= k <= s.drop_first().len() && trim_start(s.drop_first(), class) == s.drop_first().skip(k);
        assert(s.drop_first().skip(k) =~= s.skip(k + 1));
    } else {
        assert(s.skip(0) =~= s);
    }
}

proof fn lemma_trim_end_prefix(s: Seq<char>, class: TrimClass)
    ensures
        exists|k: int| 0 <= k <= s.len() && trim_end(s, class) == s.take(k),
        trim_end(s, class).len() > 0 ==> !in_class(trim_end(s, class).last(), class),
    decreases s.len(),
{
    if s.len() > 0 && in_class(s.last(), class) {
        lemma_trim_end_prefix(s.drop_last(), class);
        let k = choose|k: int| 0 <= k <= s.drop_last().len() && trim_end(s.drop_last(), class) == s.drop_last().take(k);
        assert(s.drop_last().take(k) =~= s.take(k));
    } else {
        assert(s.take(s.len() as int) =~= s);
    }
}

/// Trimming keeps a contiguous part of the text, so every kept character was there before.
proof fn lemma_trim_both_keeps(s: Seq<char>, class: TrimClass, p: spec_fn(char) -> bool)
    requires
        forall|i: int| 0 <= i < s.len() ==> p(#[trigger] s[i]),
    ensures
        forall|i: int| 0 <= i < trim_both(s, class).len() ==> p(#[trigger] trim_both(s, class)[i]),
{
    lemma_trim_start_suffix(s, class);
    let a = trim_start(s, class);
    let k = choose|k: int| 0 <= k <= s.len() && a == s.skip(k);
    assert forall|i: int| 0 <= i < a.len() implies p(#[trigger] a[i]) by {
        assert(a[i] == s[i + k]);
    }
    lemma_trim_end_prefix(a, class);
    let b = trim_end(a, class);
    let m = choose|m: int| 0 <= m <= a.len() && b == a.take(m);
    assert forall|i: int| 0 <= i < b.len() implies p(#[trigger] b[i]) by {
        assert(b[i] == a[i]);
    }
}

/// Neither end of a trimmed text is in the trimmed class.
proof fn lemma_trim_both_ends(s: Seq<char>, class: TrimClass)
    ensures
        trim_both(s, class).len() > 0 ==> !in_class(trim_both(s, class)[0], class)
            && !in_class(trim_both(s, class).last(), class),
{
    lemma_trim_start_suffix(s, class);
    let a = trim_start(s, class);
    lemma_trim_end_prefix(a, class);
    let b = trim_end(a, class);
    if b.len() > 0 {
        let m = choose|m: int| 0 <= m <= a.len() && b == a.take(m);
        assert(b[0] == a[0]);
    }
}

/// A cleaned attachment file name is a safe single path component on every platform: it is
/// neither empty nor `.` nor `..`, and holds no control character and none of
/// `\\ / : * ? " < > |`. It also neither starts nor ends with white space.
pub proof fn law_sanitized_filename_is_safe(name: Seq<char>)
    ensures
        spec_safe_component(spec_sanitize_filename(name)),
        !spec_is_whitespace(spec_sanitize_filename(name)[0]),
        !spec_is_whitespace(spec_sanitize_filename(name).last()),
{
    let p = |c: char| !forbidden_in_component(c);
    let mapped = name.map_values(|c: char| filename_char(c));
    assert forall|i: int| 0 <= i < mapped.len() implies p(#[trigger] mapped[i]) by {}
    let a = trim_both(mapped, TrimClass::Space);
    lemma_trim_both_keeps(mapped, TrimClass::Space, p);
    let b = trim_both(a, TrimClass::Dot);
    lemma_trim_both_keeps(a, TrimClass::Dot, p);
    let c = trim_both(b, TrimClass::Space);
    lemma_trim_both_keeps(b, TrimClass::Space, p);
    lemma_trim_both_ends(b, TrimClass::Space);
    if c.len() == 0 || c == seq!['.'] || c == seq!['.', '.'] {
        let d = "attachment.bin"@;
        assert(d =~= seq!['a', 't', 't', 'a', 'c', 'h', 'm', 'e', 'n', 't', '.', 'b', 'i', 'n']) by {
            reveal_strlit("attachment.bin");
        }
        assert(d != seq!['.']) by {
            assert(d.len() != seq!['.'].len());
        }
        assert(d != seq!['.', '.']) by {
            assert(d.len() != seq!['.', '.'].len());
        }
        assert forall|i: int| 0 <= i < d.len() implies !forbidden_in_component(#[trigger] d[i]) by {}
    } else {
        assert forall|i: int| 0 <= i < c.len() implies !forbidden_in_component(#[trigger] c[i]) by {
            assert(p(c[i]));
        }
    }
}

/// Every CSV row has the eleven compatibility columns.
pub proof fn law_csv_rows_have_eleven_columns(fields: Seq<Vec<(String, JsonValue)>>)
    ensures
        spec_csv_row(fields).len() == 11,
    decreases fields.len(),
{
    if fields.len() > 0 {
        law_csv_rows_have_eleven_columns(fields.drop_last());
    }
}

/// Every entry row ends up either exported or reported as an issue, never both and never lost.
pub proof fn law_every_entry_is_accounted_for(rows: Seq<EntryRecord>, opened: Seq<Opening>)
    requires
        rows.len() <= opened.len(),
    ensures
        spec_decrypt(rows, opened).0.len() + spec_decrypt(rows, opened).1.len() == rows.len(),
    decreases rows.len(),
{
    if rows.len() > 0 {
        let n = rows.len() - 1;
        law_every_entry_is_accounted_for(rows.drop_last(), opened.take(n));
    }
}

/// No more attachments are recovered than there are attachment rows.
pub proof fn law_recovered_attachments_bounded(outcomes: Seq<AttachmentOutcome>)
    ensures
        count_recovered(outcomes) <= outcomes.len(),
    decreases outcomes.len(),
{
    if outcomes.len() > 0 {
        law_recovered_attachments_bounded(outcomes.drop_last());
    }
}

/// A password read from standard input keeps every character but its line ending: a line
/// ended by `\n` or `\r\n` gives back the text before it, and a text without a final
/// newline is kept whole.
pub proof fn law_password_line_keeps_the_password(password: Seq<char>)
    requires
        password.len() == 0 || password.last() != '\r',
    ensures
        spec_strip_line_ending(password.push('\n')) == password,
        spec_strip_line_ending(password.push('\r').push('\n')) == password,
        password.len() == 0 || password.last() != '\n' ==> spec_strip_line_ending(password) == password,
{
    assert(password.push('\n').drop_last() =~= password);
    assert(password.push('\r').push('\n').drop_last() =~= password.push('\r'));
    assert(password.push('\r').drop_last() =~= password);
}

/// The vault chosen by id is the same in two databases that hold the same rows with that
/// id, whatever other vaults they hold.
pub proof fn law_vault_choice_ignores_other_vaults(vaults1: Seq<VaultRecord>, vaults2: Seq<VaultRecord>,
    id: Seq<char>)
    requires
        vaults_with_id(vaults1, id) == vaults_with_id(vaults2, id),
    ensures
        first_with_id(vaults1, id) == first_with_id(vaults2, id),
{
}

/// Two runs over the same entry rows with the same decryption results export the same
/// entries, record the same issues and collect the same file references.
pub proof fn law_entries_depend_only_on_their_rows(d1: DecryptedEntries, d2: DecryptedEntries,
    rows: Seq<EntryRecord>, opened: Seq<Opening>)
    requires
        decrypted_as(d1, rows, opened),
        decrypted_as(d2, rows, opened),
    ensures
        d1.entries@ == d2.entries@,
        d1.issues@.len() == d2.issues@.len(),
        forall|k: int| 0 <= k < d1.issues@.len() ==> (#[trigger] d1.issues@[k]).record_type@ == d2.issues@[k].record_type@
            && d1.issues@[k].id@ == d2.issues@[k].id@ && d1.issues@[k].message@ == d2.issues@[k].message@,
        forall|e| #![trigger holds(d1.references.items@, e)] #![trigger holds(d2.references.items@, e)]
            holds(d1.references.items@, e) <==> holds(d2.references.items@, e),
{
    let s = spec_decrypt(rows, opened);
    assert forall|k: int| 0 <= k < d1.issues@.len() implies (#[trigger] d1.issues@[k]).record_type@ == d2.issues@[k].record_type@
        && d1.issues@[k].id@ == d2.issues@[k].id@ && d1.issues@[k].message@ == d2.issues@[k].message@ by {
        assert(is_entry_issue(d1.issues@[k], s.1[k].0, s.1[k].1));
        assert(is_entry_issue(d2.issues@[k], s.1[k].0, s.1[k].1));
    }
}

/// Two manifests of the same export differ at most in the time they record.
pub proof fn law_manifest_differs_only_in_its_time(m1: Manifest, m2: Manifest, vault: VaultRecord,
    kind: ExportKind, source_entries: usize, recovered_entries: usize, attachments: Seq<AttachmentManifest>,
    entry_issues: Seq<ExportIssue>, attachment_issues: Seq<ExportIssue>, time1: i64, time2: i64,
    tool_version: &'static str)
    requires
        describes_manifest(m1, vault, kind, source_entries, recovered_entries, attachments, entry_issues,
            attachment_issues, time1, tool_version),
        describes_manifest(m2, vault, kind, source_entries, recovered_entries, attachments, entry_issues,
            attachment_issues, time2, tool_version),
    ensures
        m1.format@ == m2.format@,
        m1.tool.name@ == m2.tool.name@ && m1.tool.version == m2.tool.version,
        m1.vault == m2.vault,
        m1.entries.path@ == m2.entries.path@ && m1.entries.format@ == m2.entries.format@,
        m1.entries.recovered == m2.entries.recovered && m1.entries.skipped == m2.entries.skipped,
        m1.attachments@ == m2.attachments@,
        m1.issues@ == m2.issues@,
        views(m1.warnings@) == views(m2.warnings@),
{
    assert(views(m1.warnings@) =~= views(m2.warnings@));
}

/// An export depends on nothing but the chosen vault's own records. Take two databases that
/// hold the same vault rows with the requested id, whatever other vaults they hold, and two
/// runs over the same entry rows with the same decryption results and the same attachment
/// rows. Then both runs choose the same vault; export the same entries, with the same issues
/// and file references; start the same recovery job for each attachment; and, given the same
/// attachment inventory, write manifests that differ at most in their time.
pub proof fn law_export_reads_only_the_chosen_vault(
    vaults1: Seq<VaultRecord>, vaults2: Seq<VaultRecord>, id: Seq<char>, vault1: VaultRecord,
    vault2: VaultRecord, rows: Seq<EntryRecord>, opened: Seq<Opening>, d1: DecryptedEntries,
    d2: DecryptedEntries, blobs: Seq<BlobRecord>, jobs1: Seq<AttachmentJob>, jobs2: Seq<AttachmentJob>,
    m1: Manifest, m2: Manifest, kind: ExportKind, source_entries: usize,
    attachments: Seq<AttachmentManifest>, attachment_issues: Seq<ExportIssue>, time1: i64, time2: i64,
    tool_version: &'static str,
)
    requires
        vaults_with_id(vaults1, id) == vaults_with_id(vaults2, id),
        first_with_id(vaults1, id) == Some(vault1),
        first_with_id(vaults2, id) == Some(vault2),
        decrypted_as(d1, rows, opened),
        decrypted_as(d2, rows, opened),
        jobs1.len() == blobs.len(),
        jobs2.len() == blobs.len(),
        forall|j: int| 0 <= j < blobs.len() ==> starts_job(d1.references.items@, blobs, id, #[trigger] jobs1[j], j),
        forall|j: int| 0 <= j < blobs.len() ==> starts_job(d2.references.items@, blobs, id, #[trigger] jobs2[j], j),
        describes_manifest(m1, vault1, kind, source_entries, d1.entries.len(), attachments, d1.issues@,
            attachment_issues, time1, tool_version),
        describes_manifest(m2, vault2, kind, source_entries, d2.entries.len(), attachments, d2.issues@,
            attachment_issues, time2, tool_version),
    ensures
        vault1 == vault2,
        d1.entries@ == d2.entries@,
        d1.issues@.len() == d2.issues@.len(),
        forall|k: int| 0 <= k < d1.issues@.len() ==> (#[trigger] d1.issues@[k]).record_type@ == d2.issues@[k].record_type@
            && d1.issues@[k].id@ == d2.issues@[k].id@ && d1.issues@[k].message@ == d2.issues@[k].message@,
        forall|e| #![trigger holds(d1.references.items@, e)] #![trigger holds(d2.references.items@, e)]
            holds(d1.references.items@, e) <==> holds(d2.references.items@, e),
        forall|j: int| 0 <= j < blobs.len() ==> (#[trigger] jobs1[j]).blob == jobs2[j].blob
            && jobs1[j].vault_id@ == jobs2[j].vault_id@ && job_view(jobs1[j]) == job_view(jobs2[j]),
        m1.format@ == m2.format@,
        m1.tool.name@ == m2.tool.name@ && m1.tool.version == m2.tool.version,
        m1.vault == m2.vault,
        m1.entries.path@ == m2.entries.path@ && m1.entries.format@ == m2.entries.format@,
        m1.entries.recovered == m2.entries.recovered && m1.entries.skipped == m2.entries.skipped,
        m1.attachments@ == m2.attachments@,
        m1.issues@.len() == m2.issues@.len(),
        forall|k: int| 0 <= k < m1.issues@.len() ==> (#[trigger] m1.issues@[k]).record_type@ == m2.issues@[k].record_type@
            && m1.issues@[k].id@ == m2.issues@[k].id@ && m1.issues@[k].message@ == m2.issues@[k].message@,
        views(m1.warnings@) == views(m2.warnings@),
{
    law_vault_choice_ignores_other_vaults(vaults1, vaults2, id);
    law_entries_depend_only_on_their_rows(d1, d2, rows, opened);
    let r1 = d1.references.items@;
    let r2 = d2.references.items@;
    assert forall|j: int| 0 <= j < blobs.len() implies (#[trigger] jobs1[j]).blob == jobs2[j].blob
        && jobs1[j].vault_id@ == jobs2[j].vault_id@ && job_view(jobs1[j]) == job_view(jobs2[j]) by {
        let k = blobs[j].id@;
        lemma_has_key_holds(r1, k);
        lemma_has_key_holds(r2, k);
        assert(has_key(r1, k) == has_key(r2, k)) by {
            if has_key(r1, k) {
                let e = choose|e: (Seq<char>, (Seq<char>, Option<Seq<char>>, Option<u64>))| #[trigger] holds(r1, e) && e.0 == k;
                assert(holds(r2, e));
            }
            if has_key(r2, k) {
                let e = choose|e: (Seq<char>, (Seq<char>, Option<Seq<char>>, Option<u64>))| #[trigger] holds(r2, e) && e.0 == k;
                assert(holds(r1, e));
            }
        }
        assert(starts_job(r1, blobs, id, jobs1[j], j));
        assert(starts_job(r2, blobs, id, jobs2[j], j));
        if !crate::attachments::id_seen_before(blobs, j) && has_key(r1, k) {
            let e1 = (k, job_view(jobs1[j]));
            let e2 = (k, job_view(jobs2[j]));
            assert(holds(r1, e1));
            assert(holds(r2, e1));
            assert(holds(r2, e2));
            let p = choose|p: int| 0 <= p < r2.len() && #[trigger] item_view(r2[p]) == e1;
            let q = choose|q: int| 0 <= q < r2.len() && #[trigger] item_view(r2[q]) == e2;
            lemma_sorted_keys_unique(r2, p, q);
        }
    }
    assert forall|k: int| 0 <= k < m1.issues@.len() implies (#[trigger] m1.issues@[k]).record_type@ == m2.issues@[k].record_type@
        && m1.issues@[k].id@ == m2.issues@[k].id@ && m1.issues@[k].message@ == m2.issues@[k].message@ by {
        if k < d1.issues@.len() {
            assert(m1.issues@[k] == d1.issues@[k]);
            assert(m2.issues@[k] == d2.issues@[k]);
        } else {
            assert(m1.issues@[k] == attachment_issues[k - d1.issues@.len()]);
            assert(m2.issues@[k] == attachment_issues[k - d2.issues@.len()]);
        }
    }
    assert(views(m1.warnings@) =~= views(m2.warnings@));
}

/// The entry carries the row's id and metadata unchanged.
pub open spec fn keeps_row_metadata(e: ExportEntry, row: EntryRecord) -> bool {
    &&& e.id == row.id
    &&& e.created_at == row.created_at
    &&& e.updated_at == row.updated_at
    &&& e.used_at == row.used_at
    &&& e.used_count == row.used_count
    &&& e.deleted_at == row.deleted_at
}

/// The entry is the row's own, exported with the row's metadata and the object its plaintext
/// decoded to.
pub open spec fn exported_from(e: ExportEntry, row: EntryRecord, opening: Opening) -> bool {
    &&& keeps_row_metadata(e, row)
    &&& opening == Opening::Decoded(JsonValue::Object(e.payload))
}

/// Every exported entry carries the metadata of its own row unchanged: some row has its id,
/// creation, update and use times, use count and trash time (a trashed row stays trashed),
/// and the entry's payload is the JSON object that row's plaintext decoded to.
pub proof fn law_exported_entries_keep_their_row_metadata(rows: Seq<EntryRecord>, opened: Seq<Opening>, k: int)
    requires
        0 <= k < spec_decrypt(rows, opened).0.len(),
    ensures
        exists|i: int| 0 <= i < rows.len() && i < opened.len()
            && #[trigger] exported_from(spec_decrypt(rows, opened).0[k], rows[i], opened[i]),
    decreases rows.len(),
{
    let n = rows.len() - 1;
    let before = rows.drop_last();
    let prev = spec_decrypt(before, opened.take(n)).0;
    let now = spec_decrypt(rows, opened).0;
    let row = rows[n];
    match entry_failure(row, opened[n]) {
        Some(_) => {
            assert(now == prev);
        },
        None => match opened[n] {
            Opening::Decoded(JsonValue::Object(members)) => {
                assert(now == prev.push(ExportEntry {
                    id: row.id,
                    created_at: row.created_at,
                    updated_at: row.updated_at,
                    used_at: row.used_at,
                    used_count: row.used_count,
                    deleted_at: row.deleted_at,
                    payload: members,
                }));
                assert(exported_from(now[prev.len() as int], rows[n], opened[n]));
            },
            _ => {
                assert(now == prev);
            },
        },
    }
    if k < prev.len() {
        law_exported_entries_keep_their_row_metadata(before, opened.take(n), k);
        assert(now[k] == prev[k]);
        let i = choose|i: int| 0 <= i < before.len() && i < opened.take(n).len()
            && #[trigger] exported_from(prev[k], before[i], opened.take(n)[i]);
        assert(before[i] == rows[i]);
        assert(opened.take(n)[i] == opened[i]);
        assert(exported_from(now[k], rows[i], opened[i]));
    } else {
        assert(exported_from(now[k], rows[n], opened[n]));
    }
}

/// The role fills the column with this header.
pub open spec fn fills_column(role: Seq<char>, header: Seq<char>) -> bool {
    csv_slot(role) matches Some(k) && 0 <= k < spec_csv_header().len() && spec_csv_header()[k] == header
}

/// Each field role fills the CSV column that Buddy's exporter names for it.
pub proof fn law_csv_roles_fill_their_named_columns()
    ensures
        fills_column("title"@, "Title"@),
        fills_column("tags"@, "Tags"@),
        fills_column("note"@, "Notes"@),
        fills_column("username"@, "Username"@),
        fills_column("password"@, "Password"@),
        fills_column("url"@, "URL"@),
        fills_column("totp"@, "Two-Factor Secret"@),
        fills_column("card_name"@, "Cardholder Name"@),
        fills_column("card_number"@, "Card Number"@),
        fills_column("card_exp"@, "Card Expiration"@),
        fills_column("card_cvv"@, "Card CVV"@),
{
    reveal_strlit("title");
    reveal_strlit("tags");
    reveal_strlit("note");
    reveal_strlit("username");
    reveal_strlit("password");
    reveal_strlit("url");
    reveal_strlit("totp");
    reveal_strlit("card_name");
    reveal_strlit("card_number");
    reveal_strlit("card_exp");
    reveal_strlit("card_cvv");
    assert("tags"@.len() != "title"@.len());
    assert("note"@.len() != "title"@.len());
    assert("note"@[0] != "tags"@[0]);
    assert("username"@.len() != "title"@.len());
    assert("username"@.len() != "tags"@.len());
    assert("username"@.len() != "note"@.len());
    assert("password"@.len() != "title"@.len());
    assert("password"@.len() != "tags"@.len());
    assert("password"@.len() != "note"@.len());
    assert("password"@[0] != "username"@[0]);
    assert("url"@.len() != "title"@.len());
    assert("url"@.len() != "tags"@.len());
    assert("url"@.len() != "note"@.len());
    assert("url"@.len() != "username"@.len());
    assert("url"@.len() != "password"@.len());
    assert("totp"@.len() != "title"@.len());
    assert("totp"@[1] != "tags"@[1]);
    assert("totp"@[0] != "note"@[0]);
    assert("totp"@.len() != "username"@.len());
    assert("totp"@.len() != "password"@.len());
    assert("totp"@.len() != "url"@.len());
    assert("card_name"@.len() != "title"@.len());
    assert("card_name"@.len() != "tags"@.len());
    assert("card_name"@.len() != "note"@.len());
    assert("card_name"@.len() != "username"@.len());
    assert("card_name"@.len() != "password"@.len());
    assert("card_name"@.len() != "url"@.len());
    assert("card_name"@.len() != "totp"@.len());
    assert("card_number"@.len() != "title"@.len());
    assert("card_number"@.len() != "tags"@.len());
    assert("card_number"@.len() != "note"@.len());
    assert("card_number"@.len() != "username"@.len());
    assert("card_number"@.len() != "password"@.len());
    assert("card_number"@.len() != "url"@.len());
    assert("card_number"@.len() != "totp"@.len());
    assert("card_number"@.len() != "card_name"@.len());
    assert("card_exp"@.len() != "title"@.len());
    assert("card_exp"@.len() != "tags"@.len());
    assert("card_exp"@.len() != "note"@.len());
    assert("card_exp"@[0] != "username"@[0]);
    assert("card_exp"@[0] != "password"@[0]);
    assert("card_exp"@.len() != "url"@.len());
    assert("card_exp"@.len() != "totp"@.len());
    assert("card_exp"@.len() != "card_name"@.len());
    assert("card_exp"@.len() != "card_number"@.len());
    assert("card_cvv"@.len() != "title"@.len());
    assert("card_cvv"@.len() != "tags"@.len());
    assert("card_cvv"@.len() != "note"@.len());
    assert("card_cvv"@[0] != "username"@[0]);
    assert("card_cvv"@[0] != "password"@[0]);
    assert("card_cvv"@.len() != "url"@.len());
    assert("card_cvv"@.len() != "totp"@.len());
    assert("card_cvv"@.len() != "card_name"@.len());
    assert("card_cvv"@.len() != "card_number"@.len());
    assert("card_cvv"@[5] != "card_exp"@[5]);
}

/// The field has this role and a `string` typed value with this text.
pub open spec fn string_field(field: Vec<(String, JsonValue)>, role: Seq<char>, text: Seq<char>) -> bool {
    &&& spec_member_str(field@, "role"@) == Some(role)
    &&& match spec_lookup(field@, "value"@) {
        Some(v) => spec_get_str(v, "type"@) == Some("string"@) && spec_get_str(v, "value"@) == Some(text),
        None => false,
    }
}

/// A CSV column other than Tags and Two-Factor Secret holds the text of the last field whose
/// role fills it, when that field has a `string` typed value.
pub proof fn law_csv_column_holds_its_fields_text(fields: Seq<Vec<(String, JsonValue)>>, role: Seq<char>,
    text: Seq<char>, k: int)
    requires
        fields.len() > 0,
        string_field(fields.last(), role, text),
        csv_slot(role) == Some(k),
        k != 1,
        k != 6,
    ensures
        spec_csv_row(fields)[k] == text,
{
    law_csv_rows_have_eleven_columns(fields.drop_last());
    reveal_strlit("string");
    reveal_strlit("string_vec");
    reveal_strlit("totp");
    assert("string"@.len() != "string_vec"@.len());
    assert("string"@[0] != "totp"@[0]);
}

/// The unsigned number a configuration holds under `key`, if any.
pub open spec fn member_u64(config: Seq<(String, JsonValue)>, key: Seq<char>) -> Option<u64> {
    match spec_lookup(config, key) {
        Some(v) => spec_as_u64(v),
        None => None,
    }
}

/// The text `t` stands in `s` at position `i`.
pub open spec fn occurs_at(s: Seq<char>, t: Seq<char>, i: int) -> bool {
    0 <= i && i + t.len() <= s.len() && s.subrange(i, i + t.len()) == t
}

/// The configured number under `key`, or `default` when there is none.
pub open spec fn configured_or(config: Seq<(String, JsonValue)>, key: Seq<char>, default: u64) -> u64 {
    match member_u64(config, key) {
        Some(n) => n,
        None => default,
    }
}

/// The algorithm, digit count and period parameters for a configuration: its `algorithm`
/// member upper-cased (`SHA1` when absent), and its `digits` and `period` members (6 and 30
/// when absent).
pub open spec fn digits_and_period(config: Seq<(String, JsonValue)>) -> Seq<char> {
    "&algorithm="@ + crate::text::spec_ascii_uppercase(match spec_member_str(config, "algorithm"@) {
        Some(a) => a,
        None => "sha1"@,
    }) + "&digits="@ + spec_decimal(configured_or(config, "digits"@, 6) as nat) + "&period="@
        + spec_decimal(configured_or(config, "period"@, 30) as nat)
}

/// The text at `i` ends `s` or is followed by `&`.
pub open spec fn ends_parameter(s: Seq<char>, i: int) -> bool {
    i == s.len() || (0 <= i < s.len() && s[i] == '&')
}

/// A TOTP URI carries the configured secret, algorithm, digit count and period:
/// `?secret=<secret>&algorithm=` occurs in it, and so does `&algorithm=<A>&digits=<d>&period=<p>`,
/// ending the URI or followed by `&`, where `A`, `d` and `p` come from the configuration's
/// `algorithm`, `digits` and `period` members (`SHA1`, 6 and 30 when absent).
#[verifier::rlimit(50)]
pub proof fn law_totp_uri_carries_the_configured_parameters(value: JsonValue, config: Vec<(String, JsonValue)>,
    uri: Seq<char>)
    requires
        spec_get(value, "value"@) == Some(JsonValue::Object(config)),
        spec_totp_value(value) == Some(uri),
    ensures
        exists|i: int| #[trigger] occurs_at(uri, digits_and_period(config@), i)
            && ends_parameter(uri, i + digits_and_period(config@).len()),
        spec_member_str(config@, "secret"@) matches Some(secret) ==>
            exists|j: int| #[trigger] occurs_at(uri, "?secret="@ + secret + "&algorithm="@, j),
{
    let c = config@;
    let secret = spec_member_str(c, "secret"@)->0;
    let account = spec_member_str(c, "account"@)->0;
    let issuer = spec_member_str(c, "issuer"@);
    let algorithm = crate::text::spec_ascii_uppercase(match spec_member_str(c, "algorithm"@) {
        Some(a) => a,
        None => "sha1"@,
    });
    let encoded_account = crate::fields::spec_percent_encode(vstd::utf8::encode_utf8(account));
    let label = match issuer {
        Some(iss) => crate::fields::spec_percent_encode(vstd::utf8::encode_utf8(iss)) + ":"@ + encoded_account,
        None => encoded_account,
    };
    let head = "otpauth://totp/"@ + label;
    let sec = "?secret="@ + secret + "&algorithm="@;
    let dp = "&digits="@ + spec_decimal(configured_or(c, "digits"@, 6) as nat) + "&period="@
        + spec_decimal(configured_or(c, "period"@, 30) as nat);
    let t = digits_and_period(c);
    let rest = match issuer {
        Some(iss) => "&issuer="@ + crate::fields::spec_percent_encode(vstd::utf8::encode_utf8(iss)),
        None => Seq::<char>::empty(),
    };
    assert(crate::fields::config_number(c, "digits"@, 6) == configured_or(c, "digits"@, 6));
    assert(crate::fields::config_number(c, "period"@, 30) == configured_or(c, "period"@, 30));
    assert(t =~= "&algorithm="@ + algorithm + dp);
    assert(uri =~= head + sec + algorithm + dp + rest);
    let front = head + "?secret="@ + secret;
    assert(uri =~= front + t + rest);
    let i = front.len() as int;
    assert(uri.subrange(i, i + t.len()) =~= t);
    assert(occurs_at(uri, t, i));
    if issuer is Some {
        reveal_strlit("&issuer=");
        assert(uri[i + t.len()] == rest[0]);
    }
    assert(ends_parameter(uri, i + t.len()));
    let j = head.len() as int;
    assert(uri.subrange(j, j + sec.len()) =~= sec);
    assert(occurs_at(uri, sec, j));
}

/// An inspection is compatible only when SQLite's integrity check passed, the schema has every
/// required table and column, the migration is exactly the supported one, no issue is
/// reported, and every vault is compatible; so a compatible database is one that export's
/// schema check accepts.
pub proof fn law_compatible_inspection_is_exportable(r: Inspection, s: DatabaseSnapshot)
    requires
        describes_database(r, s),
        r.compatible,
    ensures
        s.schema_version == Some(SUPPORTED_SCHEMA_VERSION),
        r.schema_version == Some(SUPPORTED_SCHEMA_VERSION),
        snapshot_schema_issues(s).len() == 0,
        r.issues@.len() == 0,
        r.integrity is Intact,
        forall|k: int| 0 <= k < r.vaults@.len() ==> (#[trigger] r.vaults@[k]).compatible,
{
    assert(spec_inspection_issues(s).len() == 0);
    assert(views(r.issues@).len() == r.issues@.len());
}

/// The attachment is recovered.
pub open spec fn is_recovered(m: AttachmentManifest) -> bool {
    m.status == AttachmentStatus::Recovered
}

/// The recovered count is the number of inventory items whose status is `recovered`; an
/// attachment that failed authentication, had unusable metadata or a missing file adds nothing.
pub proof fn law_recovered_count_is_the_recovered_items(outs: Seq<AttachmentOutcome>)
    ensures
        count_recovered(outs) == outcome_manifests(outs).filter(|m: AttachmentManifest| is_recovered(m)).len(),
    decreases outs.len(),
{
    reveal(Seq::filter);
    let ms = outcome_manifests(outs);
    if outs.len() > 0 {
        law_recovered_count_is_the_recovered_items(outs.drop_last());
        assert(ms.drop_last() =~= outcome_manifests(outs.drop_last()));
        assert(ms.last() == outs.last().manifest);
    } else {
        assert(ms.len() == 0);
    }
}

proof fn lemma_missing_items_are_not_recovered(missing: Seq<(String, FileReference)>)
    ensures
        missing.map_values(|e: (String, FileReference)| missing_manifest(e))
            .filter(|m: AttachmentManifest| is_recovered(m)).len() == 0,
    decreases missing.len(),
{
    reveal(Seq::filter);
    let ms = missing.map_values(|e: (String, FileReference)| missing_manifest(e));
    if missing.len() > 0 {
        lemma_missing_items_are_not_recovered(missing.drop_last());
        assert(ms.drop_last() =~= missing.drop_last().map_values(|e: (String, FileReference)| missing_manifest(e)));
    }
}

/// The recovered count that attachment recovery reports is the number of items of its whole
/// inventory (the blobs' items, then those for references without a row) whose status is
/// `recovered`.
pub proof fn law_recovered_count_counts_the_inventory(outs: Seq<AttachmentOutcome>,
    missing: Seq<(String, FileReference)>)
    ensures
        count_recovered(outs) == (outcome_manifests(outs) + missing.map_values(
            |e: (String, FileReference)| missing_manifest(e))).filter(|m: AttachmentManifest| is_recovered(m)).len(),
{
    let pred = |m: AttachmentManifest| is_recovered(m);
    let a = outcome_manifests(outs);
    let b = missing.map_values(|e: (String, FileReference)| missing_manifest(e));
    law_recovered_count_is_the_recovered_items(outs);
    lemma_missing_items_are_not_recovered(missing);
    Seq::filter_distributes_over_add(a, b, pred);
}

} // verus!
