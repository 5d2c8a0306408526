//! Recovery of encrypted attachments, one blob at a time.
//!
//! Recovering an attachment alternates decisions with work done outside the library
//! (decryption, reading the ciphertext file, writing the plaintext). An
//! [`AttachmentJob`] holds the decisions: the caller feeds it the result of each
//! step it asked for, until it reports [`AttachmentStep::Finished`].
use vstd::prelude::*;

use crate::model::{AttachmentManifest, AttachmentStatus, BlobRecord, ExportIssue, FileReference,
    exact_bytes, wrong_length_message};
use crate::refs::{References, has_key, holds, item_view, ref_view, strictly_sorted,
    lemma_key_lt_irreflexive};
use crate::json::str_eq;
use crate::paths::{safe_component, sanitize_filename, spec_safe_component, spec_sanitize_filename};
use crate::text::{concat2, decimal_u64, owned, spec_decimal};

verus! {

/// The manifest item and, where recovery was incomplete or inexact, the issue for one attachment.
#[derive(Debug)]
pub struct AttachmentOutcome {
    pub manifest: AttachmentManifest,
    pub issue: Option<ExportIssue>,
}

/// What came of reading an attachment's ciphertext file.
#[derive(Debug)]
pub enum CiphertextRead {
    /// The file was read.
    Read,
    /// The file does not exist; the text is its path.
    NotFound(String),
    /// The file could not be read; the text is the error.
    Failed(String),
}

/// The result of one step, handed back to the job.
#[derive(Debug)]
pub enum AttachmentEvent {
    /// Nothing has been done yet.
    Started,
    /// The key envelope was opened (the attachment key) or failed authentication.
    EnvelopeOpened(Option<Vec<u8>>),
    /// The ciphertext file was read, or not.
    CiphertextLoaded(CiphertextRead),
    /// The content was decrypted (its length in bytes) or failed authentication.
    ContentOpened(Option<u64>),
    /// The plaintext was written, or the write failed with the given error text.
    Written(Option<String>),
}

/// The next step the caller performs for the job.
#[derive(Debug)]
pub enum AttachmentStep {
    /// Open the key envelope with the vault's attachment key, this nonce and this ciphertext,
    /// authenticated against the blob's envelope data.
    OpenEnvelope { nonce: Vec<u8>, ciphertext: Vec<u8> },
    /// Read the ciphertext file named by the vault id and the blob id.
    ReadCiphertext,
    /// Decrypt the ciphertext file with this key and this nonce.
    OpenContent { key: Vec<u8>, nonce: Vec<u8> },
    /// Write the plaintext to `attachments/<directory>/<filename>` inside the export.
    WritePlaintext { directory: String, filename: String },
    /// Recovery ended; the outcome is ready.
    Finished,
}

/// Where a job stands.
#[derive(Debug)]
pub enum AttachmentStage {
    Start,
    AwaitEnvelope { content_nonce: Vec<u8> },
    AwaitCiphertext { content_nonce: Vec<u8>, key: Vec<u8> },
    AwaitContent,
    AwaitWrite { plaintext_len: u64, relative: String },
    Done(AttachmentOutcome),
}

/// The recovery of one attachment blob.
#[derive(Debug)]
pub struct AttachmentJob {
    pub vault_id: String,
    pub blob: BlobRecord,
    pub filename: String,
    pub mime_type: Option<String>,
    pub declared_size: Option<u64>,
    pub stage: AttachmentStage,
}

/// The characters of an optional string.
pub open spec fn opt_view(o: Option<String>) -> Option<Seq<char>> {
    match o {
        Some(s) => Some(s@),
        None => None,
    }
}

/// Copies an optional string.
pub fn copy_opt(o: &Option<String>) -> (r: Option<String>)
    ensures
        opt_view(r) == opt_view(*o),
{
    match o {
        Some(s) => Some(s.clone()),
        None => None,
    }
}

/// An issue about the attachment `id`.
pub open spec fn is_attachment_issue(i: ExportIssue, id: Seq<char>, message: Seq<char>) -> bool {
    i.record_type@ == "attachment"@ && i.id@ == id && i.message@ == message
}

/// An issue about the entry `id`.
pub open spec fn is_entry_issue(i: ExportIssue, id: Seq<char>, message: Seq<char>) -> bool {
    i.record_type@ == "entry"@ && i.id@ == id && i.message@ == message
}

/// Builds an issue about an entry.
pub fn entry_issue(id: &str, message: String) -> (r: ExportIssue)
    ensures
        is_entry_issue(r, id@, message@),
{
    ExportIssue { record_type: "entry", id: owned(id), message }
}

/// Builds an issue about an attachment.
pub fn attachment_issue(id: &str, message: String) -> (r: ExportIssue)
    ensures
        is_attachment_issue(r, id@, message@),
{
    ExportIssue { record_type: "attachment", id: owned(id), message }
}

/// The file name recorded for a blob: the referenced name, or `<blob id>.bin`.
pub open spec fn spec_attachment_filename(blob: BlobRecord, reference: Option<FileReference>) -> Seq<char> {
    match reference {
        Some(r) => r.filename@,
        None => blob.id@ + ".bin"@,
    }
}

/// A manifest item that describes the job's blob with the given status and path.
pub open spec fn describes(m: AttachmentManifest, job: AttachmentJob, status: AttachmentStatus,
    path: Option<Seq<char>>) -> bool {
    &&& m.id@ == job.blob.id@
    &&& opt_view(m.entry_id) == opt_view(job.blob.entry_id)
    &&& m.filename@ == job.filename@
    &&& opt_view(m.mime_type) == opt_view(job.mime_type)
    &&& m.declared_size == job.declared_size
    &&& m.created_at == Some(job.blob.created_at)
    &&& m.updated_at == Some(job.blob.updated_at)
    &&& opt_view(m.path) == path
    &&& m.status == status
}

/// The job ended with this status, no path, and an issue with this message.
pub open spec fn failed_with(job: AttachmentJob, status: AttachmentStatus, message: Seq<char>) -> bool {
    match job.stage {
        AttachmentStage::Done(o) => {
            &&& describes(o.manifest, job, status, None)
            &&& o.issue matches Some(i) && is_attachment_issue(i, job.blob.id@, message)
        },
        _ => false,
    }
}

/// The path of a recovered attachment inside the export.
pub open spec fn recovered_path(job: AttachmentJob) -> Seq<char> {
    "attachments/"@ + job.blob.id@ + "/"@ + spec_sanitize_filename(job.filename@)
}

/// The message for a recovered attachment whose size differs from the declared one.
pub open spec fn size_mismatch_message(declared: u64, actual: u64) -> Seq<char> {
    "declared size is "@ + spec_decimal(declared as nat) + " bytes but recovered content is "@
        + spec_decimal(actual as nat) + " bytes"@
}

/// The first reason the blob's stored metadata is unusable, if any.
pub open spec fn precheck_failure(vault_id: Seq<char>, blob: BlobRecord) -> Option<Seq<char>> {
    if !spec_safe_component(vault_id) || !spec_safe_component(blob.id@) {
        Some("record id cannot be represented safely as an attachment path"@)
    } else if blob.nonce@.len() != 24 {
        Some(wrong_length_message("attachment nonce"@, blob.nonce@.len(), 24))
    } else if blob.envelope_nonce@.len() != 24 {
        Some(wrong_length_message("attachment envelope nonce"@, blob.envelope_nonce@.len(), 24))
    } else if blob.envelope_ciphertext@.len() != 48 {
        Some(wrong_length_message("attachment envelope ciphertext"@, blob.envelope_ciphertext@.len(), 48))
    } else {
        None
    }
}

/// The outcome of a job whose plaintext was written: recovered, with an issue only when the
/// declared size differs from the recovered one.
pub open spec fn recovered_outcome(o: AttachmentOutcome, job: AttachmentJob, plaintext_len: u64,
    relative: Seq<char>) -> bool {
    &&& describes(o.manifest, job, AttachmentStatus::Recovered, Some(relative))
    &&& match job.declared_size {
        Some(size) => if size != plaintext_len {
            o.issue matches Some(i) && is_attachment_issue(i, job.blob.id@,
                size_mismatch_message(size, plaintext_len))
        } else {
            o.issue is None
        },
        None => o.issue is None,
    }
}

/// The event answers the step the job is waiting for.
pub open spec fn answers(job: AttachmentJob, event: AttachmentEvent) -> bool {
    match job.stage {
        AttachmentStage::Start => event is Started,
        AttachmentStage::AwaitEnvelope { .. } => event is EnvelopeOpened,
        AttachmentStage::AwaitCiphertext { .. } => event is CiphertextLoaded,
        AttachmentStage::AwaitContent => event is ContentOpened,
        AttachmentStage::AwaitWrite { .. } => event is Written,
        AttachmentStage::Done(_) => false,
    }
}

/// The job's identity and declared attachment data are unchanged by a step.
pub open spec fn same_job(a: AttachmentJob, b: AttachmentJob) -> bool {
    &&& a.vault_id == b.vault_id
    &&& a.blob == b.blob
    &&& a.filename == b.filename
    &&& a.mime_type == b.mime_type
    &&& a.declared_size == b.declared_size
}

impl AttachmentJob {
    /// Starts the recovery of `blob` in the vault `vault_id`, described by the entry's
    /// file reference when there is one.
    pub fn new(vault_id: &str, blob: BlobRecord, reference: Option<FileReference>) -> (r: AttachmentJob)
        ensures
            r.vault_id@ == vault_id@,
            r.blob == blob,
            r.filename@ == spec_attachment_filename(blob, reference),
            opt_view(r.mime_type) == (match reference {
                Some(f) => opt_view(f.mime_type),
                None => None,
            }),
            r.declared_size == (match reference {
                Some(f) => f.size,
                None => None,
            }),
            r.stage is Start,
    {
        let (filename, mime_type, declared_size) = match reference {
            Some(f) => (f.filename, f.mime_type, f.size),
            None => (concat2(blob.id.as_str(), ".bin"), None, None),
        };
        AttachmentJob { vault_id: owned(vault_id), blob, filename, mime_type, declared_size,
            stage: AttachmentStage::Start }
    }

    fn manifest(&self, status: AttachmentStatus, path: Option<String>) -> (m: AttachmentManifest)
        ensures
            describes(m, *self, status, opt_view(path)),
    {
        AttachmentManifest {
            id: self.blob.id.clone(),
            entry_id: copy_opt(&self.blob.entry_id),
            filename: self.filename.clone(),
            mime_type: copy_opt(&self.mime_type),
            declared_size: self.declared_size,
            created_at: Some(self.blob.created_at),
            updated_at: Some(self.blob.updated_at),
            path,
            status,
        }
    }

    fn fail(&mut self, status: AttachmentStatus, message: String) -> (step: AttachmentStep)
        ensures
            same_job(*old(self), *final(self)),
            failed_with(*final(self), status, message@),
            step is Finished,
    {
        let manifest = self.manifest(status, None);
        let issue = attachment_issue(self.blob.id.as_str(), message);
        self.stage = AttachmentStage::Done(AttachmentOutcome { manifest, issue: Some(issue) });
        AttachmentStep::Finished
    }

    /// Takes the result of the step the job asked for and says what to do next.
    ///
    /// Unusable stored metadata, a failed authentication, a missing or unreadable ciphertext
    /// file and a failed write each end the job with an issue; only a written plaintext ends
    /// it as recovered.
    pub fn advance(&mut self, event: AttachmentEvent) -> (step: AttachmentStep)
        requires
            answers(*old(self), event),
        ensures
            same_job(*old(self), *final(self)),
            step is Finished <==> final(self).stage is Done,
            final(self).stage matches AttachmentStage::Done(o) ==> (o.manifest.status == AttachmentStatus::Recovered
                <==> o.manifest.path is Some),
            final(self).stage matches AttachmentStage::Done(o) ==> (o.manifest.status != AttachmentStatus::Recovered
                ==> o.issue is Some),
            match (old(self).stage, event) {
                (AttachmentStage::Start, _) => match precheck_failure(old(self).vault_id@, old(self).blob) {
                    Some(message) => failed_with(*final(self), AttachmentStatus::InvalidMetadata, message),
                    None => {
                        &&& step matches AttachmentStep::OpenEnvelope { nonce, ciphertext }
                            && nonce@ == old(self).blob.envelope_nonce@
                            && ciphertext@ == old(self).blob.envelope_ciphertext@
                        &&& final(self).stage matches AttachmentStage::AwaitEnvelope { content_nonce }
                            && content_nonce@ == old(self).blob.nonce@
                    },
                },
                (AttachmentStage::AwaitEnvelope { content_nonce }, AttachmentEvent::EnvelopeOpened(opened)) => match opened {
                    None => failed_with(*final(self), AttachmentStatus::AuthenticationFailed,
                        "attachment key authentication failed"@),
                    Some(key) => if key@.len() != 32 {
                        failed_with(*final(self), AttachmentStatus::InvalidMetadata,
                            wrong_length_message("decrypted attachment key"@, key@.len(), 32))
                    } else {
                        &&& step is ReadCiphertext
                        &&& final(self).stage matches
                            AttachmentStage::AwaitCiphertext { content_nonce: n, key: k }
                            && n@ == content_nonce@ && k@ == key@
                    },
                },
                (AttachmentStage::AwaitCiphertext { content_nonce, key }, AttachmentEvent::CiphertextLoaded(read)) => match read {
                    CiphertextRead::NotFound(path) => failed_with(*final(self),
                        AttachmentStatus::MissingCiphertext, "ciphertext file is missing: "@ + path@),
                    CiphertextRead::Failed(error) => failed_with(*final(self),
                        AttachmentStatus::MissingCiphertext, "could not read ciphertext file: "@ + error@),
                    CiphertextRead::Read => {
                        &&& step matches AttachmentStep::OpenContent { key: k, nonce: n }
                            && k@ == key@ && n@ == content_nonce@
                        &&& final(self).stage is AwaitContent
                    },
                },
                (AttachmentStage::AwaitContent, AttachmentEvent::ContentOpened(opened)) => match opened {
                    None => failed_with(*final(self), AttachmentStatus::AuthenticationFailed,
                        "attachment content authentication failed"@),
                    Some(len) => {
                        &&& step matches AttachmentStep::WritePlaintext { directory, filename }
                            && directory@ == old(self).blob.id@
                            && filename@ == spec_sanitize_filename(old(self).filename@)
                        &&& final(self).stage matches AttachmentStage::AwaitWrite { plaintext_len, relative }
                            && plaintext_len == len && relative@ == recovered_path(*old(self))
                    },
                },
                (AttachmentStage::AwaitWrite { plaintext_len, relative }, AttachmentEvent::Written(result)) => match result {
                    Some(error) => failed_with(*final(self), AttachmentStatus::InvalidMetadata,
                        "could not write recovered attachment: "@ + error@),
                    None => final(self).stage matches AttachmentStage::Done(o)
                        && recovered_outcome(o, *old(self), plaintext_len, relative@),
                },
                _ => true,
            },
    {
        let mut stage = AttachmentStage::AwaitContent;
        std::mem::swap(&mut stage, &mut self.stage);
        match (stage, event) {
            (AttachmentStage::Start, _) => {
                if !safe_component(self.vault_id.as_str()) || !safe_component(self.blob.id.as_str()) {
                    return self.fail(AttachmentStatus::InvalidMetadata,
                        owned("record id cannot be represented safely as an attachment path"));
                }
                let nonce = match exact_bytes("attachment nonce", self.blob.nonce.as_slice(), 24) {
                    Ok(v) => v,
                    Err(m) => return self.fail(AttachmentStatus::InvalidMetadata, m),
                };
                let envelope_nonce = match exact_bytes("attachment envelope nonce",
                    self.blob.envelope_nonce.as_slice(), 24) {
                    Ok(v) => v,
                    Err(m) => return self.fail(AttachmentStatus::InvalidMetadata, m),
                };
                if let Err(m) = exact_bytes("attachment envelope ciphertext",
                    self.blob.envelope_ciphertext.as_slice(), 48) {
                    return self.fail(AttachmentStatus::InvalidMetadata, m);
                }
                self.stage = AttachmentStage::AwaitEnvelope { content_nonce: nonce };
                AttachmentStep::OpenEnvelope {
                    nonce: envelope_nonce,
                    ciphertext: vstd::slice::slice_to_vec(self.blob.envelope_ciphertext.as_slice()),
                }
            },
            (AttachmentStage::AwaitEnvelope { content_nonce }, AttachmentEvent::EnvelopeOpened(opened)) => {
                match opened {
                    None => self.fail(AttachmentStatus::AuthenticationFailed,
                        owned("attachment key authentication failed")),
                    Some(key) => match exact_bytes("decrypted attachment key", key.as_slice(), 32) {
                        Ok(key) => {
                            self.stage = AttachmentStage::AwaitCiphertext { content_nonce, key };
                            AttachmentStep::ReadCiphertext
                        },
                        Err(m) => self.fail(AttachmentStatus::InvalidMetadata, m),
                    },
                }
            },
            (AttachmentStage::AwaitCiphertext { content_nonce, key }, AttachmentEvent::CiphertextLoaded(read)) => {
                match read {
                    CiphertextRead::NotFound(path) => self.fail(AttachmentStatus::MissingCiphertext,
                        concat2("ciphertext file is missing: ", path.as_str())),
                    CiphertextRead::Failed(error) => self.fail(AttachmentStatus::MissingCiphertext,
                        concat2("could not read ciphertext file: ", error.as_str())),
                    CiphertextRead::Read => {
                        self.stage = AttachmentStage::AwaitContent;
                        AttachmentStep::OpenContent { key, nonce: content_nonce }
                    },
                }
            },
            (AttachmentStage::AwaitContent, AttachmentEvent::ContentOpened(opened)) => {
                match opened {
                    None => self.fail(AttachmentStatus::AuthenticationFailed,
                        owned("attachment content authentication failed")),
                    Some(len) => {
                        let safe_name = sanitize_filename(self.filename.as_str());
                        let mut relative = owned("attachments/");
                        relative.append(self.blob.id.as_str());
                        relative.append("/");
                        relative.append(safe_name.as_str());
                        self.stage = AttachmentStage::AwaitWrite { plaintext_len: len, relative };
                        AttachmentStep::WritePlaintext { directory: self.blob.id.clone(), filename: safe_name }
                    },
                }
            },
            (AttachmentStage::AwaitWrite { plaintext_len, relative }, AttachmentEvent::Written(result)) => {
                match result {
                    Some(error) => self.fail(AttachmentStatus::InvalidMetadata,
                        concat2("could not write recovered attachment: ", error.as_str())),
                    None => {
                        let issue = match self.declared_size {
                            Some(size) => if size != plaintext_len {
                                let mut m = owned("declared size is ");
                                m.append(decimal_u64(size).as_str());
                                m.append(" bytes but recovered content is ");
                                m.append(decimal_u64(plaintext_len).as_str());
                                m.append(" bytes");
                                Some(attachment_issue(self.blob.id.as_str(), m))
                            } else {
                                None
                            },
                            None => None,
                        };
                        let manifest = self.manifest(AttachmentStatus::Recovered, Some(relative));
                        self.stage = AttachmentStage::Done(AttachmentOutcome { manifest, issue });
                        AttachmentStep::Finished
                    },
                }
            },
            (stage, _) => {
                self.stage = stage;
                AttachmentStep::Finished
            },
        }
    }

    /// The outcome of a finished job.
    pub fn outcome(self) -> (r: AttachmentOutcome)
        requires
            self.stage is Done,
        ensures
            self.stage == AttachmentStage::Done(r),
    {
        match self.stage {
            AttachmentStage::Done(o) => o,
            _ => {
                proof { assert(false); }
                AttachmentOutcome {
                    manifest: AttachmentManifest {
                        id: String::new(), entry_id: None, filename: String::new(), mime_type: None,
                        declared_size: None, created_at: None, updated_at: None, path: None,
                        status: AttachmentStatus::InvalidMetadata,
                    },
                    issue: None,
                }
            },
        }
    }
}

/// Two items of a strictly sorted list with the same key are the same item.
pub proof fn lemma_sorted_keys_unique(s: Seq<(String, FileReference)>, i: int, j: int)
    requires
        strictly_sorted(s),
        0 <= i < s.len(),
        0 <= j < s.len(),
        s[i].0@ == s[j].0@,
    ensures
        i == j,
{
    if i < j {
        assert(crate::refs::key_lt(s[i].0@, s[j].0@));
        lemma_key_lt_irreflexive(s[i].0@);
    } else if j < i {
        assert(crate::refs::key_lt(s[j].0@, s[i].0@));
        lemma_key_lt_irreflexive(s[j].0@);
    }
}

/// An earlier blob has the same id.
pub open spec fn id_seen_before(blobs: Seq<BlobRecord>, j: int) -> bool {
    exists|k: int| 0 <= k < j && #[trigger] blobs[k].id@ == blobs[j].id@
}

/// Some blob among the first `n` has this id.
pub open spec fn id_among(blobs: Seq<BlobRecord>, n: int, id: Seq<char>) -> bool {
    exists|k: int| 0 <= k < n && #[trigger] blobs[k].id@ == id
}

/// How a job describes its attachment (file name, MIME type, declared size), by value;
/// the job's vault, blob and stage are stated beside it where needed.
pub open spec fn job_view(job: AttachmentJob) -> (Seq<char>, Option<Seq<char>>, Option<u64>) {
    (job.filename@, opt_view(job.mime_type), job.declared_size)
}

/// The job at `j` starts for the blob at `j`, described by the entries' reference to the
/// blob's id, unless there is none or an earlier blob with the same id took it; then it is
/// described by the blob id alone.
pub open spec fn starts_job(references: Seq<(String, FileReference)>, blobs: Seq<BlobRecord>,
    vault_id: Seq<char>, job: AttachmentJob, j: int) -> bool {
    &&& job.vault_id@ == vault_id
    &&& job.blob == blobs[j]
    &&& job.stage is Start
    &&& if !id_seen_before(blobs, j) && has_key(references, blobs[j].id@) {
        holds(references, (blobs[j].id@, job_view(job)))
    } else {
        job.filename@ == blobs[j].id@ + ".bin"@ && job.mime_type is None && job.declared_size is None
    }
}

/// Starts one recovery job per blob, in blob order, each taking the entries' reference to
/// its id. Returns the jobs and the references that no blob took.
pub fn attachment_jobs(vault_id: &str, blobs: Vec<BlobRecord>, references: References)
    -> (r: (Vec<AttachmentJob>, References))
    requires
        references.wf(),
    ensures
        r.1.wf(),
        r.0@.len() == blobs@.len(),
        forall|j: int| 0 <= j < blobs@.len() ==> starts_job(references.items@, blobs@, vault_id@,
            #[trigger] r.0@[j], j),
        forall|e| #![trigger holds(r.1.items@, e)] #![trigger holds(references.items@, e)]
            holds(r.1.items@, e) <==> (holds(references.items@, e)
            && !id_among(blobs@, blobs@.len() as int, e.0)),
{
    let ghost orig = references.items@;
    let ghost all = blobs@;
    let mut remaining = references;
    let mut jobs: Vec<AttachmentJob> = Vec::new();
    let mut rest = blobs;
    let n = rest.len();
    let mut i: usize = 0;
    assert(all.skip(0) =~= all);
    while i < n
        invariant
            n == all.len(),
            i <= n,
            rest@ == all.skip(i as int),
            remaining.wf(),
            strictly_sorted(orig),
            jobs@.len() == i,
            forall|j: int| 0 <= j < i ==> starts_job(orig, all, vault_id@, #[trigger] jobs@[j], j),
            forall|e| #![trigger holds(remaining.items@, e)] #![trigger holds(orig, e)]
                holds(remaining.items@, e) <==> (holds(orig, e) && !id_among(all, i as int, e.0)),
        decreases n - i,
    {
        let ghost before = remaining.items@;
        let blob = rest.remove(0);
        assert(blob == all[i as int]);
        assert(rest@ =~= all.skip(i + 1));
        let reference = remaining.take(blob.id.as_str());
        let ghost taken = reference;
        proof {
            let after = remaining.items@;
            let k = blob.id@;
            // What stays is what stood before, less the key just taken.
            assert forall|e| holds(after, e) <==> (holds(orig, e) && !id_among(all, i + 1, e.0)) by {
                if holds(after, e) {
                    let p = choose|p: int| 0 <= p < after.len() && #[trigger] item_view(after[p]) == e;
                    match taken {
                        Some(f) => {
                            let q = choose|q: int| 0 <= q < before.len() && #[trigger] before[q].0@ == k
                                && before[q].1 == f && after == before.remove(q);
                            before.remove_ensures(q);
                            let pb = if p < q { p } else { p + 1 };
                            assert(after[p] == before[pb]);
                            assert(holds(before, e));
                            assert(e.0 != k) by {
                                if e.0 == k {
                                    lemma_sorted_keys_unique(before, pb, q);
                                }
                            }
                        },
                        None => {
                            assert(holds(before, e));
                            assert(e.0 != k) by {
                                if e.0 == k {
                                    assert(before[p].0@ == k);
                                }
                            }
                        },
                    }
                    assert(holds(orig, e) && !id_among(all, i as int, e.0));
                    assert(!id_among(all, i + 1, e.0)) by {
                        if id_among(all, i + 1, e.0) {
                            let w = choose|w: int| 0 <= w < i + 1 && #[trigger] all[w].id@ == e.0;
                            if w < i {
                                assert(id_among(all, i as int, e.0));
                            } else {
                                assert(all[i as int].id@ == k);
                            }
                        }
                    }
                }
                if holds(orig, e) && !id_among(all, i + 1, e.0) {
                    assert(!id_among(all, i as int, e.0)) by {
                        if id_among(all, i as int, e.0) {
                            let w = choose|w: int| 0 <= w < i && #[trigger] all[w].id@ == e.0;
                            assert(all[w].id@ == e.0);
                        }
                    }
                    assert(e.0 != k) by {
                        if e.0 == k {
                            assert(all[i as int].id@ == e.0);
                        }
                    }
                    assert(holds(before, e));
                    let p = choose|p: int| 0 <= p < before.len() && #[trigger] item_view(before[p]) == e;
                    match taken {
                        Some(f) => {
                            let q = choose|q: int| 0 <= q < before.len() && #[trigger] before[q].0@ == k
                                && before[q].1 == f && after == before.remove(q);
                            before.remove_ensures(q);
                            assert(p != q);
                            if p < q {
                                assert(item_view(after[p]) == e);
                            } else {
                                assert(item_view(after[p - 1]) == e);
                            }
                        },
                        None => {
                            assert(item_view(after[p]) == e);
                        },
                    }
                }
            }
            // The reference taken is the one the starting list holds for the key, unless
            // an earlier blob with this id took it.
            if id_seen_before(all, i as int) {
                let w = choose|w: int| 0 <= w < i && #[trigger] all[w].id@ == all[i as int].id@;
                assert(id_among(all, i as int, k));
                match taken {
                    Some(f) => {
                        let q = choose|q: int| 0 <= q < before.len() && #[trigger] before[q].0@ == k
                            && before[q].1 == f && after == before.remove(q);
                        assert(holds(before, item_view(before[q])));
                        assert(!id_among(all, i as int, item_view(before[q]).0));
                        assert(false);
                    },
                    None => {},
                }
            } else {
                assert(!id_among(all, i as int, k)) by {
                    if id_among(all, i as int, k) {
                        let w = choose|w: int| 0 <= w < i && #[trigger] all[w].id@ == k;
                        assert(id_seen_before(all, i as int));
                    }
                }
                match taken {
                    Some(f) => {
                        let q = choose|q: int| 0 <= q < before.len() && #[trigger] before[q].0@ == k
                            && before[q].1 == f && after == before.remove(q);
                        assert(holds(before, item_view(before[q])));
                        assert(holds(orig, item_view(before[q])));
                        let o = choose|o: int| 0 <= o < orig.len() && #[trigger] item_view(orig[o]) == item_view(before[q]);
                        assert(has_key(orig, k));
                        assert(holds(orig, (k, ref_view(f))));
                    },
                    None => {
                        assert(!has_key(orig, k)) by {
                            if has_key(orig, k) {
                                let c = choose|c: int| 0 <= c < orig.len() && #[trigger] orig[c].0@ == k;
                                assert(holds(orig, item_view(orig[c])));
                                assert(holds(before, item_view(orig[c])));
                                let p = choose|p: int| 0 <= p < before.len() && #[trigger] item_view(before[p]) == item_view(orig[c]);
                                assert(before[p].0@ == k);
                            }
                        }

                    },
                }
            }
        }
        let job = AttachmentJob::new(vault_id, blob, reference);
        assert(starts_job(orig, all, vault_id@, job, i as int));
        jobs.push(job);
        i = i + 1;
    }
    (jobs, remaining)
}

/// The manifest item for an attachment that an entry references but no database row stores.
pub open spec fn missing_manifest(e: (String, FileReference)) -> AttachmentManifest {
    AttachmentManifest {
        id: e.0,
        entry_id: None,
        filename: e.1.filename,
        mime_type: e.1.mime_type,
        declared_size: e.1.size,
        created_at: None,
        updated_at: None,
        path: None,
        status: AttachmentStatus::MissingMetadata,
    }
}

/// The issue text for an attachment that an entry references but no database row stores.
pub open spec fn missing_row_message() -> Seq<char> {
    "attachment is referenced by an entry but has no database row"@
}

/// The references whose id is none of `ids`, in their order.
pub open spec fn unmatched(s: Seq<(String, FileReference)>, ids: Seq<Seq<char>>) -> Seq<(String, FileReference)>
    decreases s.len(),
{
    if s.len() == 0 {
        Seq::empty()
    } else if ids.contains(s.last().0@) {
        unmatched(s.drop_last(), ids)
    } else {
        unmatched(s.drop_last(), ids).push(s.last())
    }
}

/// The issues that the finished jobs raised, in job order.
pub open spec fn outcome_issues(outs: Seq<AttachmentOutcome>) -> Seq<ExportIssue>
    decreases outs.len(),
{
    if outs.len() == 0 {
        Seq::empty()
    } else {
        match outs.last().issue {
            Some(i) => outcome_issues(outs.drop_last()).push(i),
            None => outcome_issues(outs.drop_last()),
        }
    }
}

/// How many finished jobs recovered their attachment.
pub open spec fn count_recovered(outs: Seq<AttachmentOutcome>) -> nat
    decreases outs.len(),
{
    if outs.len() == 0 {
        0
    } else {
        count_recovered(outs.drop_last()) + if outs.last().manifest.status == AttachmentStatus::Recovered { 1nat } else { 0nat }
    }
}

/// The manifest items of finished jobs.
pub open spec fn outcome_manifests(outs: Seq<AttachmentOutcome>) -> Seq<AttachmentManifest> {
    outs.map_values(|o: AttachmentOutcome| o.manifest)
}

impl AttachmentManifest {
    /// A copy of the item.
    pub fn duplicate(&self) -> (r: AttachmentManifest)
        ensures
            r == *self,
    {
        AttachmentManifest {
            id: self.id.clone(),
            entry_id: self.entry_id.clone(),
            filename: self.filename.clone(),
            mime_type: self.mime_type.clone(),
            declared_size: self.declared_size,
            created_at: self.created_at,
            updated_at: self.updated_at,
            path: self.path.clone(),
            status: self.status,
        }
    }
}

impl ExportIssue {
    /// A copy of the issue.
    pub fn duplicate(&self) -> (r: ExportIssue)
        ensures
            r == *self,
    {
        ExportIssue { record_type: self.record_type, id: self.id.clone(), message: self.message.clone() }
    }
}

fn contains_id(ids: &Vec<String>, id: &str) -> (r: bool)
    ensures
        r == crate::text::views(ids@).contains(id@),
{
    let mut i: usize = 0;
    while i < ids.len()
        invariant
            i <= ids.len(),
            forall|j: int| 0 <= j < i ==> #[trigger] ids@[j]@ != id@,
        decreases ids.len() - i,
    {
        if str_eq(ids[i].as_str(), id) {
            assert(crate::text::views(ids@)[i as int] == id@);
            return true;
        }
        i = i + 1;
    }
    assert(!crate::text::views(ids@).contains(id@)) by {
        if crate::text::views(ids@).contains(id@) {
            let j = choose|j: int| 0 <= j < ids@.len() && crate::text::views(ids@)[j] == id@;
            assert(ids@[j]@ == id@);
        }
    }
    false
}

/// Assembles the attachment inventory: the finished jobs' items in blob order, then one
/// `missing_metadata` item (and issue) for each referenced id that no blob row has, in id
/// order. Also counts the recovered attachments and gathers the issues.
pub fn recover_attachments(outcomes: &Vec<AttachmentOutcome>, blob_ids: &Vec<String>, leftover: &References)
    -> (r: (Vec<AttachmentManifest>, usize, Vec<ExportIssue>))
    ensures
        ({
            let missing = unmatched(leftover.items@, crate::text::views(blob_ids@));
            &&& r.0@ == outcome_manifests(outcomes@) + missing.map_values(|e: (String, FileReference)| missing_manifest(e))
            &&& r.1 == count_recovered(outcomes@)
            &&& r.2@.len() == outcome_issues(outcomes@).len() + missing.len()
            &&& r.2@.take(outcome_issues(outcomes@).len() as int) == outcome_issues(outcomes@)
            &&& forall|k: int| 0 <= k < missing.len() ==> is_attachment_issue(
                #[trigger] r.2@[outcome_issues(outcomes@).len() + k], missing[k].0@, missing_row_message())
        }),
{
    let mut manifest: Vec<AttachmentManifest> = Vec::new();
    let mut recovered: usize = 0;
    let mut issues: Vec<ExportIssue> = Vec::new();
    let mut i: usize = 0;
    while i < outcomes.len()
        invariant
            i <= outcomes.len(),
            manifest@ == outcome_manifests(outcomes@.take(i as int)),
            recovered == count_recovered(outcomes@.take(i as int)),
            recovered <= i,
            issues@ == outcome_issues(outcomes@.take(i as int)),
        decreases outcomes.len() - i,
    {
        let ghost prefix = outcomes@.take(i + 1);
        assert(prefix.drop_last() =~= outcomes@.take(i as int));
        let o = &outcomes[i];
        if o.manifest.status == AttachmentStatus::Recovered {
            recovered = recovered + 1;
        }
        match &o.issue {
            Some(issue) => issues.push(issue.duplicate()),
            None => {},
        }
        manifest.push(o.manifest.duplicate());
        i = i + 1;
        assert(manifest@ =~= outcome_manifests(outcomes@.take(i as int)));
    }
    assert(outcomes@.take(outcomes.len() as int) =~= outcomes@);
    let ghost first = manifest@;
    let ghost first_issues = issues@;
    let ghost ids = crate::text::views(blob_ids@);
    let mut k: usize = 0;
    while k < leftover.items.len()
        invariant
            k <= leftover.items.len(),
            manifest@ == first + unmatched(leftover.items@.take(k as int), ids).map_values(
                |e: (String, FileReference)| missing_manifest(e)),
            issues@.len() == first_issues.len() + unmatched(leftover.items@.take(k as int), ids).len(),
            issues@.take(first_issues.len() as int) == first_issues,
            forall|q: int| 0 <= q < unmatched(leftover.items@.take(k as int), ids).len() ==> is_attachment_issue(
                #[trigger] issues@[first_issues.len() + q], unmatched(leftover.items@.take(k as int), ids)[q].0@,
                missing_row_message()),
            ids == crate::text::views(blob_ids@),
        decreases leftover.items.len() - k,
    {
        let ghost before = unmatched(leftover.items@.take(k as int), ids);
        assert(leftover.items@.take(k + 1).drop_last() =~= leftover.items@.take(k as int));
        let e = &leftover.items[k];
        if !contains_id(blob_ids, e.0.as_str()) {
            let issue = attachment_issue(e.0.as_str(),
                owned("attachment is referenced by an entry but has no database row"));
            issues.push(issue);
            manifest.push(AttachmentManifest {
                id: e.0.clone(),
                entry_id: None,
                filename: e.1.filename.clone(),
                mime_type: e.1.mime_type.clone(),
                declared_size: e.1.size,
                created_at: None,
                updated_at: None,
                path: None,
                status: AttachmentStatus::MissingMetadata,
            });
        }
        k = k + 1;
        proof {
            let after = unmatched(leftover.items@.take(k as int), ids);
            assert(manifest@ =~= first + after.map_values(|e: (String, FileReference)| missing_manifest(e)));
            assert(issues@.take(first_issues.len() as int) =~= first_issues);
            assert forall|q: int| 0 <= q < after.len() implies is_attachment_issue(
                #[trigger] issues@[first_issues.len() + q], after[q].0@, missing_row_message()) by {
                if q < before.len() {
                    assert(after[q] == before[q]);
                }
            }
        }
    }
    assert(leftover.items@.take(leftover.items.len() as int) =~= leftover.items@);
    (manifest, recovered, issues)
}

} // verus!
