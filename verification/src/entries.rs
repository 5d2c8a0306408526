//! Which stored entries are exported, and the issue recorded for each one that is not.
//!
//! Decryption happens outside the library: for each row whose stored nonce and ciphertext
//! pass [`entry_precheck`], the caller hands back the authenticated plaintext, or nothing
//! when authentication failed. [`decrypt_entries`] decodes the plaintexts as JSON and
//! [`decide_entries`] decides the rest.
use vstd::prelude::*;

use crate::attachments::{entry_issue, is_entry_issue};
use crate::fields::{collect_file_references, payload_candidates};
use crate::json::{JsonValue, decode_json, decoded_json, lookup, spec_has_key, spec_lookup};
use crate::model::{EntryRecord, ExportEntry, ExportIssue, exact_bytes, wrong_length_message};
use crate::refs::{Candidate, References, collected};
use crate::text::{concat2, decimal_u64, owned, spec_decimal};

verus! {

/// What came of decrypting and decoding one entry.
#[derive(Debug)]
pub enum PayloadOutcome {
    /// Authenticated decryption failed.
    AuthenticationFailed,
    /// The plaintext is not JSON; the text is the decoder's message.
    InvalidJson(String),
    /// The plaintext decoded to this value.
    Decoded(JsonValue),
}

/// What came of opening one entry, by value.
pub enum Opening {
    /// Authenticated decryption failed (or was not attempted).
    Failed,
    /// The plaintext is not JSON; the decoder's message.
    Invalid(Seq<char>),
    /// The plaintext decoded to this value.
    Decoded(JsonValue),
}

/// An outcome handed to [`decide_entries`], by value.
pub open spec fn outcome_opening(o: Option<PayloadOutcome>) -> Opening {
    match o {
        Some(PayloadOutcome::Decoded(v)) => Opening::Decoded(v),
        Some(PayloadOutcome::InvalidJson(e)) => Opening::Invalid(e@),
        _ => Opening::Failed,
    }
}

/// The outcomes handed to [`decide_entries`], by value.
pub open spec fn outcome_openings(os: Seq<Option<PayloadOutcome>>) -> Seq<Opening> {
    os.map_values(|o: Option<PayloadOutcome>| outcome_opening(o))
}

/// What opening an entry gives when its plaintext is `p` (nothing: authentication failed).
pub open spec fn plaintext_opening(p: Option<Vec<u8>>) -> Opening {
    match p {
        None => Opening::Failed,
        Some(bytes) => match decoded_json(bytes@) {
            Ok(v) => Opening::Decoded(v),
            Err(m) => Opening::Invalid(m),
        },
    }
}

/// The plaintexts handed to [`decrypt_entries`], by what opening them gives.
pub open spec fn plaintext_openings(ps: Seq<Option<Vec<u8>>>) -> Seq<Opening> {
    ps.map_values(|p: Option<Vec<u8>>| plaintext_opening(p))
}

/// Why a row cannot even be decrypted, if it cannot.
pub open spec fn spec_entry_precheck(row: EntryRecord) -> Option<Seq<char>> {
    if row.nonce@.len() != 24 {
        Some(wrong_length_message("entry nonce"@, row.nonce@.len(), 24))
    } else if row.ciphertext@.len() < 16 {
        Some("ciphertext is "@ + spec_decimal(row.ciphertext@.len()) + " bytes; expected at least 16"@)
    } else {
        None
    }
}

/// Checks a row's stored nonce and ciphertext lengths; returns the nonce to decrypt with.
pub fn entry_precheck(row: &EntryRecord) -> (r: Result<Vec<u8>, String>)
    ensures
        match r {
            Ok(nonce) => spec_entry_precheck(*row) is None && nonce@ == row.nonce@,
            Err(m) => spec_entry_precheck(*row) == Some(m@),
        },
{
    let nonce = match exact_bytes("entry nonce", row.nonce.as_slice(), 24) {
        Ok(n) => n,
        Err(m) => return Err(m),
    };
    if row.ciphertext.len() < 16 {
        let mut m = owned("ciphertext is ");
        m.append(decimal_u64(row.ciphertext.len() as u64).as_str());
        m.append(" bytes; expected at least 16");
        return Err(m);
    }
    Ok(nonce)
}

/// The payload properties that would collide with the exported metadata.
pub open spec fn reserved_keys() -> Seq<Seq<char>> {
    seq!["id"@, "created_at"@, "updated_at"@, "used_at"@, "used_count"@, "deleted_at"@]
}

/// The first of `keys` that the payload has.
pub open spec fn first_present(keys: Seq<Seq<char>>, payload: Seq<(String, JsonValue)>) -> Option<Seq<char>>
    decreases keys.len(),
{
    if keys.len() == 0 {
        None
    } else if spec_has_key(payload, keys[0]) {
        Some(keys[0])
    } else {
        first_present(keys.drop_first(), payload)
    }
}

proof fn lemma_lookup_has_key(members: Seq<(String, JsonValue)>, key: Seq<char>)
    ensures
        spec_lookup(members, key) is Some <==> spec_has_key(members, key),
    decreases members.len(),
{
    if members.len() > 0 {
        lemma_lookup_has_key(members.drop_first(), key);
        if spec_has_key(members, key) && members[0].0@ != key {
            let i = choose|i: int| 0 <= i < members.len() && #[trigger] members[i].0@ == key;
            assert(members.drop_first()[i - 1].0@ == key);
        }
        if spec_has_key(members.drop_first(), key) {
            let i = choose|i: int| 0 <= i < members.len() - 1 && #[trigger] members.drop_first()[i].0@ == key;
            assert(members[i + 1].0@ == key);
        }
        if members[0].0@ == key {
            assert(members[0].0@ == key);
        }
    }
}

fn has_member(members: &Vec<(String, JsonValue)>, key: &str) -> (r: bool)
    ensures
        r == spec_has_key(members@, key@),
{
    proof {
        lemma_lookup_has_key(members@, key@);
    }
    lookup(members, key).is_some()
}

fn reserved_property(members: &Vec<(String, JsonValue)>) -> (r: Option<&'static str>)
    ensures
        match r {
            Some(k) => first_present(reserved_keys(), members@) == Some(k@),
            None => first_present(reserved_keys(), members@) is None,
        },
{
    let ghost ks = reserved_keys();
    proof {
        reveal_with_fuel(first_present, 7);
    }
    assert(ks.drop_first() =~= seq!["created_at"@, "updated_at"@, "used_at"@, "used_count"@, "deleted_at"@]);
    assert(ks.drop_first().drop_first() =~= seq!["updated_at"@, "used_at"@, "used_count"@, "deleted_at"@]);
    assert(ks.drop_first().drop_first().drop_first() =~= seq!["used_at"@, "used_count"@, "deleted_at"@]);
    assert(ks.drop_first().drop_first().drop_first().drop_first() =~= seq!["used_count"@, "deleted_at"@]);
    assert(ks.drop_first().drop_first().drop_first().drop_first().drop_first() =~= seq!["deleted_at"@]);
    assert(ks.drop_first().drop_first().drop_first().drop_first().drop_first().drop_first()
        =~= Seq::<Seq<char>>::empty());
    if has_member(members, "id") {
        Some("id")
    } else if has_member(members, "created_at") {
        Some("created_at")
    } else if has_member(members, "updated_at") {
        Some("updated_at")
    } else if has_member(members, "used_at") {
        Some("used_at")
    } else if has_member(members, "used_count") {
        Some("used_count")
    } else if has_member(members, "deleted_at") {
        Some("deleted_at")
    } else {
        None
    }
}

/// Why an entry is not exported, given the row and what came of opening it; nothing when it is.
pub open spec fn entry_failure(row: EntryRecord, opened: Opening) -> Option<Seq<char>> {
    match spec_entry_precheck(row) {
        Some(m) => Some(m),
        None => match opened {
            Opening::Decoded(JsonValue::Object(members)) => match first_present(reserved_keys(), members@) {
                Some(k) => Some("decrypted payload contains reserved property "@ + k),
                None => None,
            },
            Opening::Decoded(_) => Some("decrypted payload is not a JSON object"@),
            Opening::Invalid(e) => Some("decrypted payload is invalid JSON: "@ + e),
            Opening::Failed => Some("authenticated decryption failed"@),
        },
    }
}

/// The exported entries, the (id, message) of each refused row, and the file reference
/// candidates of the exported payloads, for the rows in order.
pub open spec fn spec_decrypt(rows: Seq<EntryRecord>, opened: Seq<Opening>)
    -> (Seq<ExportEntry>, Seq<(Seq<char>, Seq<char>)>, Seq<Candidate>)
    decreases rows.len(),
{
    if rows.len() == 0 || opened.len() < rows.len() {
        (Seq::empty(), Seq::empty(), Seq::empty())
    } else {
        let n = rows.len() - 1;
        let prev = spec_decrypt(rows.drop_last(), opened.take(n));
        let row = rows[n];
        match entry_failure(row, opened[n]) {
            Some(m) => (prev.0, prev.1.push((row.id@, m)), prev.2),
            None => match opened[n] {
                Opening::Decoded(JsonValue::Object(members)) => (
                    prev.0.push(ExportEntry {
                        id: row.id,
                        created_at: row.created_at,
                        updated_at: row.updated_at,
                        used_at: row.used_at,
                        used_count: row.used_count,
                        deleted_at: row.deleted_at,
                        payload: members,
                    }),
                    prev.1,
                    prev.2 + payload_candidates(members@),
                ),
                _ => prev,
            },
        }
    }
}

/// The entries that were exported, the file references they make, and the issues.
#[derive(Debug)]
pub struct DecryptedEntries {
    pub entries: Vec<ExportEntry>,
    pub references: References,
    pub issues: Vec<ExportIssue>,
}

/// The result matches what [`spec_decrypt`] gives for the rows and openings.
pub open spec fn decrypted_as(r: DecryptedEntries, rows: Seq<EntryRecord>, opened: Seq<Opening>) -> bool {
    let s = spec_decrypt(rows, opened);
    &&& r.entries@ == s.0
    &&& r.issues@.len() == s.1.len()
    &&& forall|k: int| 0 <= k < s.1.len() ==> is_entry_issue(#[trigger] r.issues@[k], s.1[k].0, s.1[k].1)
    &&& r.references.wf()
    &&& collected(Seq::empty(), s.2, r.references.items@)
    &&& r.entries@.len() + r.issues@.len() == rows.len()
}

/// Decides, row by row, whether an entry is exported, given what came of opening each row
/// (rows that fail [`entry_precheck`] may be given anything): rows with malformed lengths,
/// failed authentication, undecodable or non-object payloads, or payloads that carry a
/// reserved property are refused with an issue; the others are exported with their
/// metadata, and their file references are collected (the first reference to each
/// attachment id wins).
pub fn decide_entries(rows: Vec<EntryRecord>, opened: Vec<Option<PayloadOutcome>>) -> (r: DecryptedEntries)
    requires
        rows@.len() == opened@.len(),
    ensures
        decrypted_as(r, rows@, outcome_openings(opened@)),
{
    let ghost all_rows = rows@;
    let ghost all_opened = outcome_openings(opened@);
    let ghost all_outcomes = opened@;
    let mut rows = rows;
    let mut opened = opened;
    let mut entries: Vec<ExportEntry> = Vec::new();
    let mut issues: Vec<ExportIssue> = Vec::new();
    let mut references = References::new();
    let n = rows.len();
    let mut i: usize = 0;
    proof {
        assert(all_rows.take(0) =~= Seq::<EntryRecord>::empty());
        assert(all_rows.skip(0) =~= all_rows);
        assert(all_outcomes.skip(0) =~= all_outcomes);
        assert(collected(Seq::empty(), Seq::<Candidate>::empty(), references.items@)) by {
            assert forall|e: Candidate| #![trigger crate::refs::holds(references.items@, e)]
                !crate::refs::holds(references.items@, e) by {}
        }
    }
    while i < n
        invariant
            n == all_rows.len(),
            all_opened == outcome_openings(all_outcomes),
            all_outcomes.len() == n,
            i <= n,
            rows@ == all_rows.skip(i as int),
            opened@ == all_outcomes.skip(i as int),
            ({
                let s = spec_decrypt(all_rows.take(i as int), all_opened.take(i as int));
                &&& entries@ == s.0
                &&& issues@.len() == s.1.len()
                &&& forall|k: int| 0 <= k < s.1.len() ==> is_entry_issue(#[trigger] issues@[k], s.1[k].0, s.1[k].1)
                &&& references.wf()
                &&& collected(Seq::empty(), s.2, references.items@)
                &&& entries@.len() + issues@.len() == i
            }),
        decreases n - i,
    {
        let ghost prev = spec_decrypt(all_rows.take(i as int), all_opened.take(i as int));
        let ghost before_refs = references.items@;
        proof {
            assert(all_rows.take(i + 1).drop_last() =~= all_rows.take(i as int));
            assert(all_opened.take(i + 1).take(i as int) =~= all_opened.take(i as int));
            assert(all_rows.take(i + 1)[i as int] == all_rows[i as int]);
            assert(all_opened.take(i + 1)[i as int] == all_opened[i as int]);
        }
        let row = rows.remove(0);
        let outcome = opened.remove(0);
        assert(row == all_rows[i as int]);
        assert(outcome == all_outcomes[i as int]);
        assert(outcome_opening(outcome) == all_opened[i as int]);
        assert(rows@ =~= all_rows.skip(i + 1));
        assert(opened@ =~= all_outcomes.skip(i + 1));
        let ghost failure = entry_failure(row, outcome_opening(outcome));
        match entry_precheck(&row) {
            Err(m) => {
                issues.push(entry_issue(row.id.as_str(), m));
            },
            Ok(_) => {
                match outcome {
                    Some(PayloadOutcome::Decoded(JsonValue::Object(members))) => {
                        match reserved_property(&members) {
                            Some(k) => {
                                issues.push(entry_issue(row.id.as_str(),
                                    concat2("decrypted payload contains reserved property ", k)));
                            },
                            None => {
                                let ghost refs_before = references.items@;
                                collect_file_references(&members, &mut references);
                                proof {
                                    crate::refs::lemma_collected_extend(prev.2, payload_candidates(members@),
                                        refs_before, references.items@);
                                }
                                entries.push(ExportEntry {
                                    id: row.id,
                                    created_at: row.created_at,
                                    updated_at: row.updated_at,
                                    used_at: row.used_at,
                                    used_count: row.used_count,
                                    deleted_at: row.deleted_at,
                                    payload: members,
                                });
                            },
                        }
                    },
                    Some(PayloadOutcome::Decoded(_)) => {
                        issues.push(entry_issue(row.id.as_str(), owned("decrypted payload is not a JSON object")));
                    },
                    Some(PayloadOutcome::InvalidJson(e)) => {
                        issues.push(entry_issue(row.id.as_str(),
                            concat2("decrypted payload is invalid JSON: ", e.as_str())));
                    },
                    _ => {
                        issues.push(entry_issue(row.id.as_str(), owned("authenticated decryption failed")));
                    },
                }
            },
        }
        i = i + 1;
    }
    assert(all_rows.take(n as int) =~= all_rows);
    assert(all_opened.take(n as int) =~= all_opened);
    DecryptedEntries { entries, references, issues }
}

/// What opening an entry gave: authentication failed when there is no plaintext, else the
/// decoded plaintext or the decoder's message.
pub fn open_payload(plaintext: &Option<Vec<u8>>) -> (r: Option<PayloadOutcome>)
    ensures
        outcome_opening(r) == plaintext_opening(*plaintext),
{
    match plaintext {
        None => Some(PayloadOutcome::AuthenticationFailed),
        Some(bytes) => match decode_json(bytes.as_slice()) {
            Ok(v) => Some(PayloadOutcome::Decoded(v)),
            Err(m) => Some(PayloadOutcome::InvalidJson(m)),
        },
    }
}

/// Decodes each entry's authenticated plaintext as JSON (nothing: authentication failed;
/// rows that fail [`entry_precheck`] may be given anything) and decides, row by row, which
/// entries are exported, as [`decide_entries`] does. The plaintexts are only read, so the
/// caller keeps them and can wipe them afterwards.
pub fn decrypt_entries(rows: Vec<EntryRecord>, plaintexts: &Vec<Option<Vec<u8>>>) -> (r: DecryptedEntries)
    requires
        rows@.len() == plaintexts@.len(),
    ensures
        decrypted_as(r, rows@, plaintext_openings(plaintexts@)),
{
    let mut opened: Vec<Option<PayloadOutcome>> = Vec::new();
    let n = plaintexts.len();
    let mut i: usize = 0;
    while i < n
        invariant
            n == plaintexts@.len(),
            i <= n,
            opened@.len() == i,
            forall|k: int| 0 <= k < i ==> outcome_opening(#[trigger] opened@[k]) == plaintext_opening(plaintexts@[k]),
        decreases n - i,
    {
        opened.push(open_payload(&plaintexts[i]));
        i = i + 1;
    }
    assert(outcome_openings(opened@) =~= plaintext_openings(plaintexts@));
    decide_entries(rows, opened)
}

} // verus!
