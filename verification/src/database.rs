//! What an inspection reports about a Buddy database, and how the vault to export is chosen.
//!
//! Reading the database is left to the caller, which gathers the facts below with plain
//! SQL queries; the rules that turn those facts into a report stand here.
use vstd::prelude::*;

use crate::error::RescueError;
use crate::json::str_eq;
use crate::model::{Inspection, Integrity, KdfInspection, SUPPORTED_SCHEMA_VERSION,
    SUPPORTED_VAULT_VERSION, VaultInspection, VaultRecord, spec_kdf_error};
use crate::paths::{safe_component, spec_safe_component};
use crate::text::{concat2, concat3, decimal_i64, decimal_u64, join, owned, spec_decimal,
    spec_decimal_int, spec_join, views};

verus! {

/// The tables an exportable database has, each with its required columns.
pub open spec fn spec_required_schema() -> Seq<(Seq<char>, Seq<Seq<char>>)> {
    seq![
        ("migrations"@, seq!["version"@, "created_at"@]),
        ("vault"@, seq!["id"@, "salt"@, "nonce"@, "ciphertext"@, "name"@, "color"@, "hint"@,
            "biometrics_enabled"@, "kdf_algo"@, "kdf_mem_cost"@, "kdf_time_cost"@,
            "kdf_parallelism"@, "kdf_version"@, "password_changed_at"@, "version"@,
            "created_at"@, "updated_at"@]),
        ("entry"@, seq!["id"@, "vault_id"@, "nonce"@, "ciphertext"@, "created_at"@,
            "updated_at"@, "used_at"@, "used_count"@, "deleted_at"@]),
        ("entry_blob"@, seq!["id"@, "vault_id"@, "entry_id"@, "nonce"@, "envelope_nonce"@,
            "envelope_ciphertext"@, "created_at"@, "updated_at"@]),
    ]
}

/// The views of a table list.
pub open spec fn schema_views(s: Seq<(String, Vec<String>)>) -> Seq<(Seq<char>, Seq<Seq<char>>)> {
    s.map_values(|t: (String, Vec<String>)| (t.0@, views(t.1@)))
}

fn names(list: &[&str]) -> (r: Vec<String>)
    ensures
        r@.len() == list@.len(),
        forall|i: int| 0 <= i < list@.len() ==> (#[trigger] r@[i])@ == list@[i]@,
{
    let mut out: Vec<String> = Vec::new();
    let mut i: usize = 0;
    while i < list.len()
        invariant
            i <= list.len(),
            out@.len() == i,
            forall|j: int| 0 <= j < i ==> (#[trigger] out@[j])@ == list@[j]@,
        decreases list.len() - i,
    {
        out.push(owned(list[i]));
        i = i + 1;
    }
    out
}

/// The tables an exportable database has, each with its required columns.
pub fn required_schema() -> (r: Vec<(String, Vec<String>)>)
    ensures
        schema_views(r@) == spec_required_schema(),
{
    let mut out: Vec<(String, Vec<String>)> = Vec::new();
    let migrations = names(&["version", "created_at"]);
    let vault = names(&["id", "salt", "nonce", "ciphertext", "name", "color", "hint",
        "biometrics_enabled", "kdf_algo", "kdf_mem_cost", "kdf_time_cost", "kdf_parallelism",
        "kdf_version", "password_changed_at", "version", "created_at", "updated_at"]);
    let entry = names(&["id", "vault_id", "nonce", "ciphertext", "created_at", "updated_at",
        "used_at", "used_count", "deleted_at"]);
    let blob = names(&["id", "vault_id", "entry_id", "nonce", "envelope_nonce",
        "envelope_ciphertext", "created_at", "updated_at"]);
    assert(views(migrations@) =~= seq!["version"@, "created_at"@]);
    assert(views(vault@) =~= seq!["id"@, "salt"@, "nonce"@, "ciphertext"@, "name"@, "color"@, "hint"@,
        "biometrics_enabled"@, "kdf_algo"@, "kdf_mem_cost"@, "kdf_time_cost"@,
        "kdf_parallelism"@, "kdf_version"@, "password_changed_at"@, "version"@,
        "created_at"@, "updated_at"@]);
    assert(views(entry@) =~= seq!["id"@, "vault_id"@, "nonce"@, "ciphertext"@, "created_at"@,
        "updated_at"@, "used_at"@, "used_count"@, "deleted_at"@]);
    assert(views(blob@) =~= seq!["id"@, "vault_id"@, "entry_id"@, "nonce"@, "envelope_nonce"@,
        "envelope_ciphertext"@, "created_at"@, "updated_at"@]);
    out.push((owned("migrations"), migrations));
    out.push((owned("vault"), vault));
    out.push((owned("entry"), entry));
    out.push((owned("entry_blob"), blob));
    assert(schema_views(out@) =~= spec_required_schema());
    out
}

/// The issues about the required columns of one present table, in column order.
pub open spec fn missing_columns(table: Seq<char>, required: Seq<Seq<char>>, found: Seq<Seq<char>>) -> Seq<Seq<char>>
    decreases required.len(),
{
    if required.len() == 0 {
        Seq::empty()
    } else {
        let prev = missing_columns(table, required.drop_last(), found);
        if found.contains(required.last()) {
            prev
        } else {
            prev.push("required column is missing: "@ + table + "."@ + required.last())
        }
    }
}

/// The issues about one required table, given the columns found for it (none: it is missing).
pub open spec fn table_issues(table: Seq<char>, required: Seq<Seq<char>>, found: Seq<Seq<char>>) -> Seq<Seq<char>> {
    if found.len() == 0 {
        seq!["required table is missing: "@ + table]
    } else {
        missing_columns(table, required, found)
    }
}

/// The issues about the schema, table after table.
pub open spec fn spec_schema_issues(schema: Seq<(Seq<char>, Seq<Seq<char>>)>, found: Seq<Seq<Seq<char>>>) -> Seq<Seq<char>>
    decreases schema.len(),
{
    if schema.len() == 0 {
        Seq::empty()
    } else {
        let n = schema.len() - 1;
        spec_schema_issues(schema.drop_last(), found) + table_issues(schema[n].0, schema[n].1, found[n])
    }
}

/// The columns found for each table, by value.
pub open spec fn found_views(found: Seq<Vec<String>>) -> Seq<Seq<Seq<char>>> {
    found.map_values(|cols: Vec<String>| views(cols@))
}

fn contains_name(list: &Vec<String>, name: &str) -> (r: bool)
    ensures
        r == views(list@).contains(name@),
{
    let mut i: usize = 0;
    while i < list.len()
        invariant
            i <= list.len(),
            forall|j: int| 0 <= j < i ==> (#[trigger] list@[j])@ != name@,
        decreases list.len() - i,
    {
        if str_eq(list[i].as_str(), name) {
            assert(views(list@)[i as int] == name@);
            return true;
        }
        i = i + 1;
    }
    assert(!views(list@).contains(name@)) by {
        if views(list@).contains(name@) {
            let j = choose|j: int| 0 <= j < list@.len() && views(list@)[j] == name@;
            assert(list@[j]@ == name@);
        }
    }
    false
}

/// Lists the schema problems: each required table that is missing, and each required column
/// that a present table lacks. `found[t]` holds the columns of the `t`-th required table.
pub fn schema_issues(found: &Vec<Vec<String>>) -> (r: Vec<String>)
    requires
        found@.len() == spec_required_schema().len(),
    ensures
        views(r@) == spec_schema_issues(spec_required_schema(), found_views(found@)),
{
    let schema = required_schema();
    let ghost spec_schema = spec_required_schema();
    let ghost fv = found_views(found@);
    let mut issues: Vec<String> = Vec::new();
    let mut t: usize = 0;
    assert(spec_schema.take(0) =~= Seq::<(Seq<char>, Seq<Seq<char>>)>::empty());
    while t < schema.len()
        invariant
            schema_views(schema@) == spec_schema,
            spec_schema == spec_required_schema(),
            schema@.len() == 4,
            found@.len() == 4,
            fv == found_views(found@),
            t <= 4,
            views(issues@) == spec_schema_issues(spec_schema.take(t as int), fv),
        decreases 4 - t,
    {
        assert(spec_schema.take(t + 1).drop_last() =~= spec_schema.take(t as int));
        let table = &schema[t].0;
        let required = &schema[t].1;
        let cols = &found[t];
        assert(table@ == spec_schema[t as int].0);
        assert(views(required@) == spec_schema[t as int].1);
        assert(views(cols@) == fv[t as int]);
        let ghost before = views(issues@);
        if cols.len() == 0 {
            issues.push(concat2("required table is missing: ", table.as_str()));
            assert(views(issues@) =~= before + table_issues(table@, views(required@), views(cols@)));
        } else {
            let mut c: usize = 0;
            assert(views(required@).take(0) =~= Seq::<Seq<char>>::empty());
            while c < required.len()
                invariant
                    c <= required@.len(),
                    views(issues@) == before + missing_columns(table@, views(required@).take(c as int), views(cols@)),
                decreases required@.len() - c,
            {
                assert(views(required@).take(c + 1).drop_last() =~= views(required@).take(c as int));
                let ghost mid = views(issues@);
                if !contains_name(cols, required[c].as_str()) {
                    let mut m = concat3("required column is missing: ", table.as_str(), ".");
                    m.append(required[c].as_str());
                    issues.push(m);
                    assert(views(issues@) =~= mid.push(m@));
                }
                c = c + 1;
            }
            assert(views(required@).take(required@.len() as int) =~= views(required@));
        }
        t = t + 1;
    }
    assert(spec_schema.take(4) =~= spec_schema);
    issues
}

/// Refuses a database whose schema has issues, or whose migration is not the supported one
/// (a database without migrations counts as migration 0).
pub fn require_exportable_schema(issues: &Vec<String>, version: Option<i64>) -> (r: Result<(), RescueError>)
    ensures
        issues@.len() > 0 ==> (r matches Err(RescueError::InvalidDatabase(m))
            && m@ == spec_join(views(issues@), "; "@)),
        issues@.len() == 0 ==> match version {
            Some(v) if v == SUPPORTED_SCHEMA_VERSION => r is Ok,
            Some(v) => r matches Err(RescueError::UnsupportedSchemaVersion(w)) && w == v,
            None => r matches Err(RescueError::UnsupportedSchemaVersion(w)) && w == 0,
        },
{
    if issues.len() > 0 {
        return Err(RescueError::InvalidDatabase(join(issues, "; ")));
    }
    let v = match version {
        Some(v) => v,
        None => 0,
    };
    if v != SUPPORTED_SCHEMA_VERSION {
        return Err(RescueError::UnsupportedSchemaVersion(v));
    }
    Ok(())
}

/// SQLite's integrity check passed exactly when it answered the single message `ok`.
pub fn integrity(messages: Vec<String>) -> (r: Integrity)
    ensures
        (views(messages@) == seq!["ok"@]) ==> r is Intact,
        !(views(messages@) == seq!["ok"@]) ==> r == (Integrity::Failed { messages }),
{
    if messages.len() == 1 && str_eq(messages[0].as_str(), "ok") {
        assert(views(messages@) =~= seq!["ok"@]);
        Integrity::Intact
    } else {
        proof {
            if views(messages@) == seq!["ok"@] {
                assert(views(messages@).len() == messages@.len());
                assert(messages@.len() == 1);
                assert(messages@[0]@ == views(messages@)[0]);
            }
        }
        Integrity::Failed { messages }
    }
}

/// What the database holds about one vault's records and files, as plain values.
#[derive(Debug)]
pub struct VaultFacts {
    /// For each entry row of the vault: whether it is in the trash (`deleted_at` is set).
    pub entry_trashed: Vec<bool>,
    /// For each entry row: the stored lengths of its nonce and ciphertext (`NULL`: none).
    pub entry_lengths: Vec<(Option<i64>, Option<i64>)>,
    /// For each attachment row: the stored lengths of its nonce, envelope nonce and envelope ciphertext.
    pub blob_lengths: Vec<(Option<i64>, Option<i64>, Option<i64>)>,
    /// The ids of the vault's attachment rows, in id order.
    pub blob_ids: Vec<String>,
    /// For each attachment id: whether its ciphertext file exists.
    pub files_present: Vec<bool>,
    /// What the key-derivation library said of the parameters, when it refused them.
    pub kdf_refusal: Option<String>,
}

/// How many of the flags are set.
pub open spec fn count_true(flags: Seq<bool>) -> nat
    decreases flags.len(),
{
    if flags.len() == 0 {
        0
    } else {
        count_true(flags.drop_last()) + if flags.last() { 1nat } else { 0nat }
    }
}

/// An entry row whose stored lengths cannot be decrypted (SQL semantics: a missing length
/// never matches).
pub open spec fn malformed_entry(l: (Option<i64>, Option<i64>)) -> bool {
    (l.0 matches Some(n) && n != 24) || (l.1 matches Some(c) && c < 16)
}

/// An attachment row whose stored lengths cannot be decrypted.
pub open spec fn malformed_blob(l: (Option<i64>, Option<i64>, Option<i64>)) -> bool {
    (l.0 matches Some(n) && n != 24) || (l.1 matches Some(e) && e != 24) || (l.2 matches Some(c) && c != 48)
}

/// How many entry rows are malformed.
pub open spec fn count_malformed_entries(ls: Seq<(Option<i64>, Option<i64>)>) -> nat
    decreases ls.len(),
{
    if ls.len() == 0 {
        0
    } else {
        count_malformed_entries(ls.drop_last()) + if malformed_entry(ls.last()) { 1nat } else { 0nat }
    }
}

/// How many attachment rows are malformed.
pub open spec fn count_malformed_blobs(ls: Seq<(Option<i64>, Option<i64>, Option<i64>)>) -> nat
    decreases ls.len(),
{
    if ls.len() == 0 {
        0
    } else {
        count_malformed_blobs(ls.drop_last()) + if malformed_blob(ls.last()) { 1nat } else { 0nat }
    }
}

fn count_flags(flags: &Vec<bool>) -> (r: (u64, u64))
    ensures
        r.0 == flags@.len() - count_true(flags@),
        r.1 == count_true(flags@),
{
    let mut set: u64 = 0;
    let mut unset: u64 = 0;
    let mut i: usize = 0;
    while i < flags.len()
        invariant
            i <= flags.len(),
            set == count_true(flags@.take(i as int)),
            unset == i - count_true(flags@.take(i as int)),
            set + unset == i,
        decreases flags.len() - i,
    {
        assert(flags@.take(i + 1).drop_last() =~= flags@.take(i as int));
        if flags[i] {
            set = set + 1;
        } else {
            unset = unset + 1;
        }
        i = i + 1;
    }
    assert(flags@.take(flags.len() as int) =~= flags@);
    (unset, set)
}

fn malformed_entry_count(ls: &Vec<(Option<i64>, Option<i64>)>) -> (r: u64)
    ensures
        r == count_malformed_entries(ls@),
{
    let mut n: u64 = 0;
    let mut i: usize = 0;
    while i < ls.len()
        invariant
            i <= ls.len(),
            n == count_malformed_entries(ls@.take(i as int)),
            n <= i,
        decreases ls.len() - i,
    {
        assert(ls@.take(i + 1).drop_last() =~= ls@.take(i as int));
        let (a, b) = ls[i];
        let bad = match a {
            Some(x) => x != 24,
            None => false,
        } || match b {
            Some(y) => y < 16,
            None => false,
        };
        if bad {
            n = n + 1;
        }
        i = i + 1;
    }
    assert(ls@.take(ls.len() as int) =~= ls@);
    n
}

fn malformed_blob_count(ls: &Vec<(Option<i64>, Option<i64>, Option<i64>)>) -> (r: u64)
    ensures
        r == count_malformed_blobs(ls@),
{
    let mut n: u64 = 0;
    let mut i: usize = 0;
    while i < ls.len()
        invariant
            i <= ls.len(),
            n == count_malformed_blobs(ls@.take(i as int)),
            n <= i,
        decreases ls.len() - i,
    {
        assert(ls@.take(i + 1).drop_last() =~= ls@.take(i as int));
        let (a, b, c) = ls[i];
        let bad = match a {
            Some(x) => x != 24,
            None => false,
        } || match b {
            Some(y) => y != 24,
            None => false,
        } || match c {
            Some(z) => z != 48,
            None => false,
        };
        if bad {
            n = n + 1;
        }
        i = i + 1;
    }
    assert(ls@.take(ls.len() as int) =~= ls@);
    n
}

/// The file tally of a vault's attachments: (present, missing, path issues).
pub open spec fn spec_file_counts(vault_id: Seq<char>, ids: Seq<Seq<char>>, present: Seq<bool>)
    -> (nat, nat, Seq<Seq<char>>)
    decreases ids.len(),
{
    if !spec_safe_component(vault_id) {
        (0, ids.len(), seq!["vault id cannot be represented safely as an attachment path"@])
    } else if ids.len() == 0 {
        (0, 0, Seq::empty())
    } else {
        let n = ids.len() - 1;
        let prev = spec_file_counts(vault_id, ids.drop_last(), present.take(n));
        if !spec_safe_component(ids[n]) {
            (prev.0, prev.1 + 1, prev.2.push("attachment "@ + ids[n] + " has an unsafe path component"@))
        } else if present[n] {
            (prev.0 + 1, prev.1, prev.2)
        } else {
            (prev.0, prev.1 + 1, prev.2)
        }
    }
}

/// Counts a vault's attachment files that are present and missing; ids that cannot be used
/// as path components count as missing, with an issue. `present[i]` tells whether the file of
/// `ids[i]` exists.
pub fn attachment_file_counts(vault_id: &str, ids: &Vec<String>, present: &Vec<bool>) -> (r: (u64, u64, Vec<String>))
    requires
        present@.len() == ids@.len(),
    ensures
        ({
            let s = spec_file_counts(vault_id@, views(ids@), present@);
            r.0 == s.0 && r.1 == s.1 && views(r.2@) == s.2
        }),
{
    let mut issues: Vec<String> = Vec::new();
    if !safe_component(vault_id) {
        issues.push(owned("vault id cannot be represented safely as an attachment path"));
        assert(views(issues@) =~= seq!["vault id cannot be represented safely as an attachment path"@]);
        return (0, ids.len() as u64, issues);
    }
    let ghost idv = views(ids@);
    let mut found: u64 = 0;
    let mut missing: u64 = 0;
    let mut i: usize = 0;
    while i < ids.len()
        invariant
            spec_safe_component(vault_id@),
            idv == views(ids@),
            present@.len() == ids@.len(),
            i <= ids.len(),
            found + missing == i,
            ({
                let s = spec_file_counts(vault_id@, idv.take(i as int), present@.take(i as int));
                found == s.0 && missing == s.1 && views(issues@) == s.2
            }),
        decreases ids.len() - i,
    {
        assert(idv.take(i + 1).drop_last() =~= idv.take(i as int));
        assert(present@.take(i + 1).take(i as int) =~= present@.take(i as int));
        assert(idv.take(i + 1)[i as int] == ids@[i as int]@);
        let ghost before = views(issues@);
        if !safe_component(ids[i].as_str()) {
            missing = missing + 1;
            let m = concat3("attachment ", ids[i].as_str(), " has an unsafe path component");
            issues.push(m);
            assert(views(issues@) =~= before.push(m@));
        } else if present[i] {
            found = found + 1;
        } else {
            missing = missing + 1;
        }
        i = i + 1;
    }
    assert(idv.take(ids.len() as int) =~= idv);
    assert(present@.take(ids.len() as int) =~= present@);
    (found, missing, issues)
}

/// An optional issue.
pub open spec fn issue_if(cond: bool, message: Seq<char>) -> Seq<Seq<char>> {
    if cond { seq![message] } else { Seq::empty() }
}

/// The issues about a vault's stored format: version and verifier field lengths.
pub open spec fn header_issues(v: VaultRecord) -> Seq<Seq<char>> {
    issue_if(v.version != SUPPORTED_VAULT_VERSION, "unsupported vault version: "@ + spec_decimal_int(v.version as int))
    + issue_if(v.salt@.len() != 16, "salt is "@ + spec_decimal(v.salt@.len()) + " bytes; expected 16"@)
    + issue_if(v.nonce@.len() != 24, "verifier nonce is "@ + spec_decimal(v.nonce@.len()) + " bytes; expected 24"@)
    + issue_if(v.ciphertext@.len() != 48, "verifier ciphertext is "@ + spec_decimal(v.ciphertext@.len())
        + " bytes; expected 48"@)
}

/// The issue about a vault's key-derivation parameters, if they are refused.
pub open spec fn kdf_issues(v: VaultRecord, refusal: Option<String>) -> Seq<Seq<char>> {
    match spec_kdf_error(v) {
        Some(e) => seq![e],
        None => match refusal {
            Some(e) => seq![e@],
            None => Seq::empty(),
        },
    }
}

/// The issues about malformed entry and attachment records.
pub open spec fn malformed_issues(f: VaultFacts) -> Seq<Seq<char>> {
    issue_if(count_malformed_entries(f.entry_lengths@) != 0,
        spec_decimal(count_malformed_entries(f.entry_lengths@)) + " entry record(s) have invalid lengths"@)
    + issue_if(count_malformed_blobs(f.blob_lengths@) != 0,
        spec_decimal(count_malformed_blobs(f.blob_lengths@)) + " attachment record(s) have invalid lengths"@)
}

/// The issues an inspection raises about one vault, in report order.
pub open spec fn spec_vault_issues(v: VaultRecord, f: VaultFacts) -> Seq<Seq<char>> {
    header_issues(v) + kdf_issues(v, f.kdf_refusal) + malformed_issues(f)
        + spec_file_counts(v.id@, views(f.blob_ids@), f.files_present@).2
}

/// The report about one vault describes it and the facts gathered about it.
pub open spec fn describes_vault(r: VaultInspection, v: VaultRecord, f: VaultFacts) -> bool {
    let files = spec_file_counts(v.id@, views(f.blob_ids@), f.files_present@);
    &&& r.id == v.id
    &&& r.name == v.name
    &&& r.color == v.color
    &&& r.hint_present == v.hint_present
    &&& r.biometrics_enabled == v.biometrics_enabled
    &&& r.version == v.version
    &&& r.kdf.algorithm == v.kdf_algo
    &&& r.kdf.memory_kib == v.kdf_mem_cost
    &&& r.kdf.iterations == v.kdf_time_cost
    &&& r.kdf.parallelism == v.kdf_parallelism
    &&& r.kdf.version == v.kdf_version
    &&& r.live_entries == f.entry_trashed@.len() - count_true(f.entry_trashed@)
    &&& r.trashed_entries == count_true(f.entry_trashed@)
    &&& r.attachments == f.blob_ids@.len()
    &&& r.attachment_files_present == files.0
    &&& r.attachment_files_missing == files.1
    &&& r.created_at == v.created_at
    &&& r.updated_at == v.updated_at
    &&& r.password_changed_at == v.password_changed_at
    &&& views(r.issues@) == spec_vault_issues(v, f)
    &&& r.compatible == (spec_vault_issues(v, f).len() == 0)
}

fn push_issue(issues: &mut Vec<String>, m: String)
    ensures
        views(final(issues)@) == views(old(issues)@).push(m@),
{
    issues.push(m);
    assert(views(issues@) =~= views(old(issues)@).push(m@));
}

fn extend(issues: &mut Vec<String>, more: Vec<String>)
    ensures
        views(final(issues)@) == views(old(issues)@) + views(more@),
{
    let ghost start = views(issues@);
    let mut k: usize = 0;
    while k < more.len()
        invariant
            k <= more.len(),
            views(issues@) == start + views(more@).take(k as int),
        decreases more.len() - k,
    {
        push_issue(issues, more[k].clone());
        k = k + 1;
        assert(views(issues@) =~= start + views(more@).take(k as int));
    }
    assert(views(more@).take(more.len() as int) =~= views(more@));
}

fn vault_header_issues(vault: &VaultRecord) -> (r: Vec<String>)
    ensures
        views(r@) == header_issues(*vault),
{
    let mut issues: Vec<String> = Vec::new();
    let ghost v = *vault;
    if vault.version != SUPPORTED_VAULT_VERSION {
        push_issue(&mut issues, concat2("unsupported vault version: ", decimal_i64(vault.version).as_str()));
    }
    let ghost s1 = views(issues@);
    assert(s1 =~= issue_if(v.version != SUPPORTED_VAULT_VERSION, "unsupported vault version: "@ + spec_decimal_int(v.version as int)));
    if vault.salt.len() != 16 {
        push_issue(&mut issues, concat3("salt is ", decimal_u64(vault.salt.len() as u64).as_str(), " bytes; expected 16"));
    }
    let ghost s2 = views(issues@);
    assert(s2 =~= s1 + issue_if(v.salt@.len() != 16, "salt is "@ + spec_decimal(v.salt@.len()) + " bytes; expected 16"@));
    if vault.nonce.len() != 24 {
        push_issue(&mut issues, concat3("verifier nonce is ", decimal_u64(vault.nonce.len() as u64).as_str(), " bytes; expected 24"));
    }
    let ghost s3 = views(issues@);
    assert(s3 =~= s2 + issue_if(v.nonce@.len() != 24, "verifier nonce is "@ + spec_decimal(v.nonce@.len()) + " bytes; expected 24"@));
    if vault.ciphertext.len() != 48 {
        push_issue(&mut issues, concat3("verifier ciphertext is ", decimal_u64(vault.ciphertext.len() as u64).as_str(), " bytes; expected 48"));
    }
    assert(views(issues@) =~= s3 + issue_if(v.ciphertext@.len() != 48, "verifier ciphertext is "@ + spec_decimal(v.ciphertext@.len())
        + " bytes; expected 48"@));
    issues
}

fn vault_kdf_issues(vault: &VaultRecord, refusal: &Option<String>) -> (r: Vec<String>)
    ensures
        views(r@) == kdf_issues(*vault, *refusal),
{
    let mut issues: Vec<String> = Vec::new();
    match vault.kdf_params() {
        Err(e) => push_issue(&mut issues, e),
        Ok(_) => match refusal {
            Some(e) => push_issue(&mut issues, e.clone()),
            None => {},
        },
    }
    assert(views(issues@) =~= kdf_issues(*vault, *refusal));
    issues
}

fn record_issues(facts: &VaultFacts) -> (r: Vec<String>)
    ensures
        views(r@) == malformed_issues(*facts),
{
    let mut issues: Vec<String> = Vec::new();
    let ghost f = *facts;
    let invalid_entries = malformed_entry_count(&facts.entry_lengths);
    let invalid_blobs = malformed_blob_count(&facts.blob_lengths);
    if invalid_entries != 0 {
        push_issue(&mut issues, concat2(decimal_u64(invalid_entries).as_str(), " entry record(s) have invalid lengths"));
    }
    let ghost s6 = views(issues@);
    assert(s6 =~= issue_if(count_malformed_entries(f.entry_lengths@) != 0,
        spec_decimal(count_malformed_entries(f.entry_lengths@)) + " entry record(s) have invalid lengths"@));
    if invalid_blobs != 0 {
        push_issue(&mut issues, concat2(decimal_u64(invalid_blobs).as_str(), " attachment record(s) have invalid lengths"));
    }
    assert(views(issues@) =~= malformed_issues(f));
    issues
}

/// Reports on one vault: its stored settings, entry and attachment counts, and every issue
/// that would stop or limit an export (unsupported version, wrong salt/nonce/verifier lengths,
/// refused key-derivation parameters, malformed records, missing or unusable attachment paths).
/// The vault is compatible when there is no issue.
pub fn inspect_vault(vault: VaultRecord, facts: VaultFacts) -> (r: VaultInspection)
    requires
        facts.files_present@.len() == facts.blob_ids@.len(),
    ensures
        describes_vault(r, vault, facts),
{
    let ghost v = vault;
    let ghost f = facts;
    let mut issues = vault_header_issues(&vault);
    extend(&mut issues, vault_kdf_issues(&vault, &facts.kdf_refusal));
    extend(&mut issues, record_issues(&facts));
    let (live, trashed) = count_flags(&facts.entry_trashed);
    let (present, missing, path_issues) = attachment_file_counts(vault.id.as_str(), &facts.blob_ids, &facts.files_present);
    extend(&mut issues, path_issues);
    assert(views(issues@) =~= spec_vault_issues(v, f));
    let compatible = issues.len() == 0;
    VaultInspection {
        id: vault.id,
        name: vault.name,
        color: vault.color,
        hint_present: vault.hint_present,
        biometrics_enabled: vault.biometrics_enabled,
        version: vault.version,
        compatible,
        kdf: KdfInspection {
            algorithm: vault.kdf_algo,
            memory_kib: vault.kdf_mem_cost,
            iterations: vault.kdf_time_cost,
            parallelism: vault.kdf_parallelism,
            version: vault.kdf_version,
        },
        live_entries: live,
        trashed_entries: trashed,
        attachments: facts.blob_ids.len() as u64,
        attachment_files_present: present,
        attachment_files_missing: missing,
        created_at: vault.created_at,
        updated_at: vault.updated_at,
        password_changed_at: vault.password_changed_at,
        issues,
    }
}

/// What an inspection reads from a database, as plain values.
#[derive(Debug)]
pub struct DatabaseSnapshot {
    /// The messages of SQLite's integrity check.
    pub integrity_messages: Vec<String>,
    /// The latest schema migration, if the migrations table has one.
    pub schema_version: Option<i64>,
    /// For each table of [`required_schema`], in order: the columns found (none when the
    /// table is missing).
    pub schema_columns: Vec<Vec<String>>,
    /// The attachment tree that file checks used.
    pub attachments_directory: std::path::PathBuf,
    /// Each vault row, in `created_at, id` order, with the facts about its records. Read only
    /// when the schema has every required table and column.
    pub vaults: Vec<(VaultRecord, VaultFacts)>,
}

/// The snapshot lists one column set per required table, and one file flag per attachment.
pub open spec fn snapshot_wf(s: DatabaseSnapshot) -> bool {
    &&& s.schema_columns@.len() == spec_required_schema().len()
    &&& forall|k: int| 0 <= k < s.vaults@.len() ==>
        (#[trigger] s.vaults@[k]).1.files_present@.len() == s.vaults@[k].1.blob_ids@.len()
}

/// The schema issues of a snapshot.
pub open spec fn snapshot_schema_issues(s: DatabaseSnapshot) -> Seq<Seq<char>> {
    spec_schema_issues(spec_required_schema(), found_views(s.schema_columns@))
}

/// The database-level issues: schema problems, then an unsupported migration.
pub open spec fn spec_inspection_issues(s: DatabaseSnapshot) -> Seq<Seq<char>> {
    snapshot_schema_issues(s) + issue_if(s.schema_version != Some(SUPPORTED_SCHEMA_VERSION),
        "schema migration "@ + match s.schema_version {
            Some(v) => spec_decimal_int(v as int),
            None => "unknown"@,
        } + " is not supported by this build"@)
}

/// The report matches the snapshot: the integrity verdict, the migration, the issues, one
/// vault report per vault (only when the schema is complete), and compatibility exactly when
/// the integrity check passed, there is no issue, and every vault is compatible.
pub open spec fn describes_database(r: Inspection, s: DatabaseSnapshot) -> bool {
    let schema_ready = snapshot_schema_issues(s).len() == 0;
    &&& r.format@ == "buddy-vault-v1"@
    &&& (views(s.integrity_messages@) == seq!["ok"@] ==> r.integrity is Intact)
    &&& (views(s.integrity_messages@) != seq!["ok"@] ==> r.integrity == (Integrity::Failed { messages: s.integrity_messages }))
    &&& r.schema_version == s.schema_version
    &&& r.attachments_directory == s.attachments_directory
    &&& views(r.issues@) == spec_inspection_issues(s)
    &&& r.vaults@.len() == (if schema_ready { s.vaults@.len() } else { 0 })
    &&& forall|k: int| 0 <= k < r.vaults@.len() ==>
        describes_vault(#[trigger] r.vaults@[k], s.vaults@[k].0, s.vaults@[k].1)
    &&& r.compatible == (r.integrity is Intact && spec_inspection_issues(s).len() == 0
        && forall|k: int| 0 <= k < r.vaults@.len() ==> (#[trigger] r.vaults@[k]).compatible)
}

/// Builds the inspection report of a database from what was read of it.
pub fn inspect(snapshot: DatabaseSnapshot) -> (r: Inspection)
    requires
        snapshot_wf(snapshot),
    ensures
        describes_database(r, snapshot),
{
    let ghost s = snapshot;
    let DatabaseSnapshot { integrity_messages, schema_version, schema_columns, attachments_directory, vaults } = snapshot;
    let integrity = integrity(integrity_messages);
    let mut issues = schema_issues(&schema_columns);
    let schema_ready = issues.len() == 0;
    assert(schema_ready == (snapshot_schema_issues(s).len() == 0)) by {
        assert(views(issues@).len() == issues@.len());
    }
    let ghost base = views(issues@);
    let supported = match schema_version {
        Some(v) => v == SUPPORTED_SCHEMA_VERSION,
        None => false,
    };
    if !supported {
        let shown = match schema_version {
            Some(v) => decimal_i64(v),
            None => owned("unknown"),
        };
        push_issue(&mut issues, concat3("schema migration ", shown.as_str(), " is not supported by this build"));
    }
    assert(views(issues@) =~= spec_inspection_issues(s));
    let mut reports: Vec<VaultInspection> = Vec::new();
    if schema_ready {
        let ghost all = vaults@;
        let mut rest = vaults;
        let n = rest.len();
        let mut i: usize = 0;
        assert(all.skip(0) =~= all);
        while i < n
            invariant
                n == all.len(),
                all == s.vaults@,
                snapshot_wf(s),
                i <= n,
                rest@ == all.skip(i as int),
                reports@.len() == i,
                forall|k: int| 0 <= k < i ==> describes_vault(#[trigger] reports@[k], all[k].0, all[k].1),
            decreases n - i,
        {
            let (vault, facts) = rest.remove(0);
            assert((vault, facts) == all[i as int]);
            assert(rest@ =~= all.skip(i + 1));
            reports.push(inspect_vault(vault, facts));
            i = i + 1;
        }
    }
    let mut all_compatible = true;
    let mut k: usize = 0;
    while k < reports.len()
        invariant
            k <= reports.len(),
            all_compatible == forall|j: int| 0 <= j < k ==> (#[trigger] reports@[j]).compatible,
        decreases reports.len() - k,
    {
        if !reports[k].compatible {
            all_compatible = false;
        }
        k = k + 1;
    }
    let integrity_ok = match &integrity {
        Integrity::Intact => true,
        Integrity::Failed { .. } => false,
    };
    let compatible = integrity_ok && issues.len() == 0 && all_compatible;
    assert(views(issues@).len() == issues@.len());
    Inspection {
        format: "buddy-vault-v1",
        integrity,
        schema_version,
        compatible,
        attachments_directory,
        vaults: reports,
        issues,
    }
}

/// The line that lists one vault when a choice is needed.
pub open spec fn vault_choice_line(v: VaultRecord) -> Seq<char> {
    "  "@ + v.id@ + "  "@ + v.name@
}

/// The list of vault lines.
pub open spec fn vault_choice_lines(vaults: Seq<VaultRecord>) -> Seq<Seq<char>> {
    vaults.map_values(|v: VaultRecord| vault_choice_line(v))
}

/// The vaults with this id, in order.
pub open spec fn vaults_with_id(vaults: Seq<VaultRecord>, id: Seq<char>) -> Seq<VaultRecord>
    decreases vaults.len(),
{
    if vaults.len() == 0 {
        Seq::empty()
    } else if vaults[0].id@ == id {
        seq![vaults[0]] + vaults_with_id(vaults.drop_first(), id)
    } else {
        vaults_with_id(vaults.drop_first(), id)
    }
}

/// The first vault with this id, if any.
pub open spec fn first_with_id(vaults: Seq<VaultRecord>, id: Seq<char>) -> Option<VaultRecord> {
    if vaults_with_id(vaults, id).len() > 0 {
        Some(vaults_with_id(vaults, id)[0])
    } else {
        None
    }
}

/// The first vault with an id is the one at the first position that has it.
proof fn lemma_first_with_id(vaults: Seq<VaultRecord>, id: Seq<char>, i: int)
    requires
        0 <= i <= vaults.len(),
        forall|j: int| 0 <= j < i ==> #[trigger] vaults[j].id@ != id,
        i < vaults.len() ==> vaults[i].id@ == id,
    ensures
        i < vaults.len() ==> first_with_id(vaults, id) == Some(vaults[i]),
        i == vaults.len() ==> first_with_id(vaults, id) is None,
    decreases vaults.len(),
{
    if vaults.len() > 0 && i > 0 {
        let rest = vaults.drop_first();
        assert forall|j: int| 0 <= j < i - 1 implies #[trigger] rest[j].id@ != id by {
            assert(rest[j] == vaults[j + 1]);
        }
        if i < vaults.len() {
            assert(rest[i - 1] == vaults[i]);
        }
        lemma_first_with_id(rest, id, i - 1);
        assert(vaults[0].id@ != id);
    }
}

/// Picks the vault to export: the first with the requested id; without a request, the only
/// vault. Refuses a missing id, an empty database, and several vaults without a request (the
/// refusal lists every vault as `  <id>  <name>`, one per line).
pub fn choose_vault(vaults: Vec<VaultRecord>, requested: Option<&str>) -> (r: Result<VaultRecord, RescueError>)
    ensures
        requested matches Some(id) ==> match first_with_id(vaults@, id@) {
            Some(v) => r == Ok::<VaultRecord, RescueError>(v),
            None => r matches Err(RescueError::VaultNotFound(m)) && m@ == id@,
        },
        match requested {
            Some(id) => match r {
                Ok(v) => exists|i: int| 0 <= i < vaults@.len() && #[trigger] vaults@[i] == v
                    && v.id@ == id@ && forall|j: int| 0 <= j < i ==> #[trigger] vaults@[j].id@ != id@,
                Err(e) => {
                    &&& forall|i: int| 0 <= i < vaults@.len() ==> #[trigger] vaults@[i].id@ != id@
                    &&& e matches RescueError::VaultNotFound(m) && m@ == id@
                },
            },
            None => if vaults@.len() == 0 {
                r matches Err(RescueError::InvalidDatabase(m)) && m@ == "database contains no vaults"@
            } else if vaults@.len() == 1 {
                r == Ok::<VaultRecord, RescueError>(vaults@[0])
            } else {
                r matches Err(RescueError::VaultSelectionRequired(m))
                    && m@ == spec_join(vault_choice_lines(vaults@), "\n"@)
            },
        },
{
    let ghost orig = vaults@;
    let mut list = vaults;
    assert(list@ == orig);
    match requested {
        Some(id) => {
            let mut i: usize = 0;
            while i < list.len()
                invariant
                    list@ == orig,
                    orig == vaults@,
                    requested == Some(id),
                    i <= list.len(),
                    forall|j: int| 0 <= j < i ==> #[trigger] list@[j].id@ != id@,
                decreases list.len() - i,
            {
                if str_eq(list[i].id.as_str(), id) {
                    let ghost all = list@;
                    let v = list.remove(i);
                    assert(all[i as int] == v);
                    proof {
                        lemma_first_with_id(orig, id@, i as int);
                    }
                    let res: Result<VaultRecord, RescueError> = Ok(v);
                    return res;
                }
                i = i + 1;
            }
            proof {
                lemma_first_with_id(orig, id@, list.len() as int);
            }
            Err(RescueError::VaultNotFound(owned(id)))
        },
        None => {
            if list.len() == 0 {
                Err(RescueError::InvalidDatabase(owned("database contains no vaults")))
            } else if list.len() == 1 {
                let ghost all = list@;
                let v = list.remove(0);
                assert(v == all[0]);
                let res: Result<VaultRecord, RescueError> = Ok(v);
                res
            } else {
                let mut lines: Vec<String> = Vec::new();
                let mut i: usize = 0;
                while i < list.len()
                    invariant
                        list@ == orig,
                        i <= list.len(),
                        views(lines@) == vault_choice_lines(list@.take(i as int)),
                    decreases list.len() - i,
                {
                    let mut line = concat2("  ", list[i].id.as_str());
                    line.append("  ");
                    line.append(list[i].name.as_str());
                    let ghost prev = views(lines@);
                    assert(line@ == vault_choice_line(list@[i as int]));
                    lines.push(line);
                    assert(views(lines@) =~= prev.push(line@));
                    assert(list@.take(i + 1) =~= list@.take(i as int).push(list@[i as int]));
                    i = i + 1;
                    assert(views(lines@) =~= vault_choice_lines(list@.take(i as int)));
                }
                assert(list@.take(list.len() as int) =~= list@);
                Err(RescueError::VaultSelectionRequired(join(&lines, "\n")))
            }
        },
    }
}

} // verus!
