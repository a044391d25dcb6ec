use vstd::prelude::*;

use crate::cipher;
use crate::cipher::{KEY_LEN, NONCE_LEN, PLAINTEXT_MAX, TAG_LEN, spec_decrypt};
use crate::config::Config;
use crate::crypto;
use crate::crypto::{b64_of, key_matches, uuid_text_of};
use crate::key_verifier;
use crate::ledger::{LedgerEntry, attempt_count, consumed};
use crate::metadata;
use crate::metadata::{Metadata, metadata_decoded, metadata_encoded};

verus! {

/// Size budget, in bytes, for the encrypted metadata record: it must fit a
/// constrained transport field.
pub const METADATA_CIPHERTEXT_BUDGET: usize = 255;

/// One stored file: identity, the verifier digest of its key (never the key),
/// provenance, lifetime, and the two ciphertexts. Immutable once created.
pub struct FileRecord {
    /// Opaque 128-bit identifier.
    pub id: u128,
    /// One-way verifier digest of the raw key, as a PHC string.
    pub digest: String,
    /// Origin address of the uploader.
    pub origin: Vec<u8>,
    /// Creation timestamp, in seconds.
    pub uploaded_at: u64,
    /// Expiry timestamp: the file is downloadable through this moment.
    pub download_until: u64,
    /// Ciphertext of the encoded metadata record.
    pub encrypted_metadata: Vec<u8>,
    /// Ciphertext of the content.
    pub blob: Vec<u8>,
}

/// The persisted state both orchestrators consult: the file records and the
/// append-only access ledger, with the configuration snapshot.
pub struct Vault {
    /// Read-only configuration.
    pub config: Config,
    /// One record per stored file, in upload order.
    pub files: Vec<FileRecord>,
    /// One entry per download attempt, in arrival order.
    pub ledger: Vec<LedgerEntry>,
}

/// What an upload returns: the opaque identifier and the raw key, the one
/// moment the key exists outside the caller's possession.
pub struct UploadReceipt {
    /// Identifier of the stored file.
    pub id: u128,
    /// The raw one-time key; the vault keeps only its verifier digest.
    pub key: Vec<u8>,
}

/// The public payload answering an upload: the identifier in canonical text
/// form and the key in url-safe base64.
pub struct Response {
    /// Identifier text.
    pub id: String,
    /// Url-safe base64 of the raw key.
    pub key: String,
}

/// What a successful download returns.
pub struct DownloadOutput {
    /// The decrypted content.
    pub content: Vec<u8>,
    /// The decrypted metadata record.
    pub metadata: Metadata,
}

/// Why an upload was refused.
#[derive(Debug)]
pub enum UploadError {
    /// The origin exhausted its rolling-window quota; nothing was stored.
    TooManyRequests,
    /// The body exceeds the configured maximum size.
    BodyTooLarge,
    /// The metadata record would exceed the encrypted-metadata budget.
    MetadataTooLarge,
    /// A backend step failed: the cipher, the digest, a colliding
    /// identifier, or expiry arithmetic overflow.
    Internal,
}

/// Why a download was refused. Every ineligible state answers uniformly with
/// `NotFound`, so the response reveals nothing of expiry, exhaustion or prior
/// consumption.
#[derive(Debug)]
pub enum DownloadError {
    /// No eligible file carries the identifier.
    NotFound,
    /// The file is eligible but the supplied key does not grant access; a
    /// failed attempt was recorded.
    Unauthorized,
}

/// Why a record could not be stored.
#[derive(Debug)]
pub enum StoreError {
    /// A record with this identifier already exists.
    DuplicateId,
    /// Computing the expiry timestamp overflowed.
    TimeOverflow,
}

/// Start of the rolling rate-limit window ending at `now`.
pub open spec fn window_start(now: u64, window: u64) -> int {
    if now >= window {
        now - window
    } else {
        0
    }
}

/// Whether `file` counts toward `origin`'s quota in the window ending at
/// `now`.
pub open spec fn counts_toward(file: FileRecord, origin: Seq<u8>, now: u64, window: u64) -> bool {
    file.origin@ == origin && window_start(now, window) <= file.uploaded_at <= now
}

/// How many stored files `origin` uploaded within the window ending at `now`.
pub open spec fn recent_count(files: Seq<FileRecord>, origin: Seq<u8>, now: u64, window: u64) -> nat
    decreases files.len(),
{
    if files.len() == 0 {
        0
    } else {
        recent_count(files.drop_last(), origin, now, window) + if counts_toward(
            files.last(),
            origin,
            now,
            window,
        ) {
            1nat
        } else {
            0nat
        }
    }
}

/// A file is downloadable at `now` iff it has not expired, fewer than
/// `max_attempts` attempts were recorded, and — under the one-shot policy —
/// no prior attempt succeeded.
pub open spec fn eligible(
    file: FileRecord,
    ledger: Seq<LedgerEntry>,
    now: u64,
    max_attempts: u64,
    one_shot: bool,
) -> bool {
    &&& now <= file.download_until
    &&& (one_shot ==> !consumed(ledger, file.id))
    &&& attempt_count(ledger, file.id) < max_attempts
}

/// Whether `key` grants access to `file`: it matches the stored verifier
/// digest and authenticates both ciphertexts, whose metadata decodes.
pub open spec fn grants(file: FileRecord, key: Seq<u8>) -> bool {
    &&& key.len() == KEY_LEN
    &&& key_matches(key, file.digest@)
    &&& spec_decrypt(key, file.blob@) is Some
    &&& match spec_decrypt(key, file.encrypted_metadata@) {
        Some(encoded) => metadata_decoded(encoded) is Some,
        None => false,
    }
}

/// Whether a metadata record would blow the encrypted-metadata budget once
/// encoded and sealed.
pub open spec fn metadata_oversized(filename: Seq<u8>, content_type: Seq<u8>) -> bool {
    2 + filename.len() + content_type.len() + NONCE_LEN + TAG_LEN > METADATA_CIPHERTEXT_BUDGET
}

/// Law: once `max_attempts` ledger entries exist for a file, successful or
/// not, it is ineligible whatever the time and whatever key is supplied.
pub proof fn lemma_attempt_cap_blocks(
    file: FileRecord,
    ledger: Seq<LedgerEntry>,
    now: u64,
    max_attempts: u64,
    one_shot: bool,
)
    requires
        attempt_count(ledger, file.id) >= max_attempts,
    ensures
        !eligible(file, ledger, now, max_attempts, one_shot),
{
}

/// Law: a file whose expiry lies in the past is ineligible even with no
/// prior attempts and a correct key.
pub proof fn lemma_expiry_blocks(
    file: FileRecord,
    ledger: Seq<LedgerEntry>,
    now: u64,
    max_attempts: u64,
    one_shot: bool,
)
    requires
        file.download_until < now,
    ensures
        !eligible(file, ledger, now, max_attempts, one_shot),
{
}

/// Law: under the one-shot policy, a file some attempt against which already
/// succeeded is permanently ineligible: the one successful download consumed
/// it.
pub proof fn lemma_consumption_blocks(
    file: FileRecord,
    ledger: Seq<LedgerEntry>,
    now: u64,
    max_attempts: u64,
)
    requires
        consumed(ledger, file.id),
    ensures
        !eligible(file, ledger, now, max_attempts, true),
{
}

/// Law: under the one-shot policy, recording a successful attempt consumes
/// the file — once the entry a successful download appends is in the ledger,
/// the file is ineligible at every later moment, whatever key is supplied.
pub proof fn lemma_success_consumes(
    file: FileRecord,
    ledger: Seq<LedgerEntry>,
    entry: LedgerEntry,
    now: u64,
    max_attempts: u64,
)
    requires
        entry.file_id == file.id,
        entry.successful,
    ensures
        !eligible(file, ledger.push(entry), now, max_attempts, true),
{
    crate::ledger::lemma_consumed_push(ledger, entry, file.id);
}

/// Identifiers are globally unique by construction; the vault relies on
/// that to address a record.
pub open spec fn ids_unique(files: Seq<FileRecord>) -> bool {
    forall|i: int, j: int| 0 <= i < j < files.len() ==> files[i].id != files[j].id
}

/// Byte-wise equality of two byte strings.
fn bytes_eq(a: &Vec<u8>, b: &Vec<u8>) -> (r: bool)
    ensures
        r == (a@ == b@),
{
    if a.len() != b.len() {
        return false;
    }
    let mut i: usize = 0;
    while i < a.len()
        invariant
            i <= a@.len(),
            a@.len() == b@.len(),
            forall|k: int| 0 <= k < i ==> a@[k] == b@[k],
        decreases a@.len() - i,
    {
        if a[i] != b[i] {
            return false;
        }
        i = i + 1;
    }
    proof {
        assert(a@ =~= b@);
    }
    true
}

impl Vault {
    /// The vault's invariant: stored identifiers are unique.
    pub open spec fn wf(self) -> bool {
        ids_unique(self.files@)
    }

    /// Whether some record carries `id`.
    pub open spec fn contains_file(self, id: u128) -> bool {
        exists|i: int| 0 <= i < self.files@.len() && self.files@[i].id == id
    }

    /// The record carrying `id`; meaningful only under `wf` when
    /// `contains_file(id)` holds.
    pub open spec fn the_file(self, id: u128) -> FileRecord {
        self.files@[choose|i: int| 0 <= i < self.files@.len() && self.files@[i].id == id]
    }

    /// Whether `origin` has used up its upload quota for the rolling window
    /// ending at `now`.
    pub open spec fn upload_limit_reached(self, origin: Seq<u8>, now: u64) -> bool {
        recent_count(self.files@, origin, now, self.config.upload_window_secs)
            >= self.config.max_uploads_per_window
    }

    /// Whether an eligible record carries `id` at `now`.
    pub open spec fn downloadable(self, id: u128, now: u64) -> bool {
        self.contains_file(id) && eligible(
            self.the_file(id),
            self.ledger@,
            now,
            self.config.max_download_attempts,
            self.config.one_shot_download,
        )
    }

    /// An empty vault under `config`.
    pub fn new(config: Config) -> (v: Vault)
        ensures
            v.wf(),
            v.config == config,
            v.files@.len() == 0,
            v.ledger@.len() == 0,
    {
        Vault { config, files: Vec::new(), ledger: Vec::new() }
    }

    /// How many files are stored.
    pub fn file_count(&self) -> (n: usize)
        ensures
            n == self.files@.len(),
    {
        self.files.len()
    }

    /// How many download attempts were recorded, over all files.
    pub fn ledger_len(&self) -> (n: usize)
        ensures
            n == self.ledger@.len(),
    {
        self.ledger.len()
    }

    /// Index of the record carrying `id`, if any.
    fn find_index(&self, id: u128) -> (r: Option<usize>)
        requires
            self.wf(),
        ensures
            (r matches Some(i)) <==> self.contains_file(id),
            r matches Some(i) ==> i < self.files@.len() && self.files@[i as int].id == id
                && self.files@[i as int] == self.the_file(id),
    {
        let mut i: usize = 0;
        while i < self.files.len()
            invariant
                self.wf(),
                i <= self.files@.len(),
                forall|k: int| 0 <= k < i ==> self.files@[k].id != id,
            decreases self.files@.len() - i,
        {
            if self.files[i].id == id {
                proof {
                    assert(self.contains_file(id));
                    let ii = i as int;
                    let j = choose|j: int|
                        0 <= j < self.files@.len() && self.files@[j].id == id;
                    if j < ii {
                        assert(self.files@[j].id != self.files@[ii].id);
                    } else if ii < j {
                        assert(self.files@[ii].id != self.files@[j].id);
                    }
                }
                return Some(i);
            }
            i = i + 1;
        }
        None
    }

    /// Count `origin`'s uploads within the rolling window ending at `now`.
    pub fn count_recent_uploads(&self, origin: &Vec<u8>, now: u64) -> (n: u64)
        ensures
            n == recent_count(self.files@, origin@, now, self.config.upload_window_secs),
    {
        let window = self.config.upload_window_secs;
        let low: u64 = if now >= window {
            now - window
        } else {
            0
        };
        let mut count: u64 = 0;
        let mut i: usize = 0;
        while i < self.files.len()
            invariant
                i <= self.files@.len(),
                count <= i,
                low == window_start(now, window),
                count == recent_count(self.files@.take(i as int), origin@, now, window),
            decreases self.files@.len() - i,
        {
            let hit = bytes_eq(&self.files[i].origin, origin) && low <= self.files[i].uploaded_at
                && self.files[i].uploaded_at <= now;
            if hit {
                count = count + 1;
            }
            i = i + 1;
            proof {
                let pre = self.files@.take(i - 1);
                assert(self.files@.take(i as int) =~= pre.push(self.files@[i - 1]));
                assert(pre.push(self.files@[i - 1]).drop_last() =~= pre);
            }
        }
        proof {
            assert(self.files@.take(self.files@.len() as int) =~= self.files@);
        }
        count
    }

    /// Whether `origin` may not upload at `now`: its count of uploads within
    /// the rolling window has reached the configured maximum.
    pub fn is_upload_limit_reached(&self, origin: &Vec<u8>, now: u64) -> (r: bool)
        ensures
            r == self.upload_limit_reached(origin@, now),
    {
        let n = self.count_recent_uploads(origin, now);
        n >= self.config.max_uploads_per_window
    }

    /// Count the ledger's attempts against `id`.
    pub fn count_attempts(&self, id: u128) -> (n: usize)
        ensures
            n == attempt_count(self.ledger@, id),
    {
        let mut count: usize = 0;
        let mut i: usize = 0;
        while i < self.ledger.len()
            invariant
                i <= self.ledger@.len(),
                count <= i,
                count == attempt_count(self.ledger@.take(i as int), id),
            decreases self.ledger@.len() - i,
        {
            if self.ledger[i].file_id == id {
                count = count + 1;
            }
            i = i + 1;
            proof {
                let pre = self.ledger@.take(i - 1);
                assert(self.ledger@.take(i as int) =~= pre.push(self.ledger@[i - 1]));
                crate::ledger::lemma_attempt_count_push(pre, self.ledger@[i - 1], id);
            }
        }
        proof {
            assert(self.ledger@.take(self.ledger@.len() as int) =~= self.ledger@);
        }
        count
    }

    /// Whether some recorded attempt against `id` succeeded.
    pub fn has_successful_attempt(&self, id: u128) -> (r: bool)
        ensures
            r == consumed(self.ledger@, id),
    {
        let mut i: usize = 0;
        while i < self.ledger.len()
            invariant
                i <= self.ledger@.len(),
                forall|k: int|
                    0 <= k < i ==> !(self.ledger@[k].file_id == id && self.ledger@[k].successful),
            decreases self.ledger@.len() - i,
        {
            if self.ledger[i].file_id == id && self.ledger[i].successful {
                return true;
            }
            i = i + 1;
        }
        false
    }

    /// Index of the record carrying `id` if it is eligible at `now`: not
    /// expired, attempt budget not exhausted, and not consumed where one
    /// successful download exhausts a file.
    pub fn get_downloadable_file(&self, id: u128, now: u64) -> (r: Option<usize>)
        requires
            self.wf(),
        ensures
            (r matches Some(i)) <==> self.downloadable(id, now),
            r matches Some(i) ==> i < self.files@.len() && self.files@[i as int] == self.the_file(
                id,
            ),
    {
        let i = match self.find_index(id) {
            Some(i) => i,
            None => {
                return None;
            },
        };
        let consumed_now = self.config.one_shot_download && self.has_successful_attempt(id);
        if now <= self.files[i].download_until && !consumed_now && (self.count_attempts(id)
            as u64) < self.config.max_download_attempts {
            Some(i)
        } else {
            None
        }
    }

    /// Append a file record with a fresh expiry computed from `now`. The
    /// record is the publication point: until it is stored the file does not
    /// exist, whatever blob bytes were written.
    pub fn store_file(
        &mut self,
        id: u128,
        digest: String,
        origin: Vec<u8>,
        encrypted_metadata: Vec<u8>,
        blob: Vec<u8>,
        now: u64,
    ) -> (r: Result<(), StoreError>)
        requires
            old(self).wf(),
        ensures
            final(self).wf(),
            final(self).config == old(self).config,
            final(self).ledger@ == old(self).ledger@,
            (r matches Err(e) && e == StoreError::TimeOverflow) <==> now + old(
                self,
            ).config.lifetime_secs > u64::MAX,
            (r matches Err(e) && e == StoreError::DuplicateId) <==> (now + old(
                self,
            ).config.lifetime_secs <= u64::MAX && old(self).contains_file(id)),
            r matches Err(e) ==> *final(self) == *old(self),
            r matches Ok(u) ==> final(self).files@ == old(self).files@.push(
                (FileRecord {
                    id,
                    digest,
                    origin,
                    uploaded_at: now,
                    download_until: (now + old(self).config.lifetime_secs) as u64,
                    encrypted_metadata,
                    blob,
                }),
            ),
    {
        if self.config.lifetime_secs > u64::MAX - now {
            return Err(StoreError::TimeOverflow);
        }
        match self.find_index(id) {
            Some(_) => {
                return Err(StoreError::DuplicateId);
            },
            None => {},
        }
        let download_until: u64 = now + self.config.lifetime_secs;
        let ghost pre = self.files@;
        self.files.push(
            FileRecord { id, digest, origin, uploaded_at: now, download_until, encrypted_metadata, blob },
        );
        proof {
            assert forall|i: int, j: int|
                0 <= i < j < self.files@.len() implies self.files@[i].id != self.files@[j].id by {
                if j < pre.len() {
                    assert(pre[i].id != pre[j].id);
                } else {
                    assert(self.files@[j].id == id);
                    assert(!(exists|k: int| 0 <= k < pre.len() && pre[k].id == id));
                    assert(pre[i].id != id);
                }
            }
        }
        Ok(())
    }

    /// Append one attempt to the access ledger. Entries are never updated or
    /// deleted.
    pub fn store_access_log(&mut self, origin: Vec<u8>, file_id: u128, successful: bool, now: u64)
        ensures
            final(self).config == old(self).config,
            final(self).files@ == old(self).files@,
            final(self).wf() == old(self).wf(),
            final(self).ledger@ == old(self).ledger@.push(
                (LedgerEntry { file_id, origin, time: now, successful }),
            ),
    {
        self.ledger.push(LedgerEntry { file_id, origin, time: now, successful });
    }

    /// Upload orchestrator. In order, short-circuiting on the first failure:
    /// rate-limit check, body-size check, content encryption under a fresh
    /// key, metadata encoding and encryption under the same key within the
    /// fixed budget, verifier derivation, identifier generation, record
    /// publication. On success the stored record holds only ciphertext and
    /// the digest, and the raw key is returned to the caller alone; every
    /// refusal leaves the vault unchanged.
    pub fn upload(
        &mut self,
        origin: Vec<u8>,
        body: Vec<u8>,
        metadata: &Metadata,
        now: u64,
    ) -> (r: Result<UploadReceipt, UploadError>)
        requires
            old(self).wf(),
        ensures
            final(self).wf(),
            final(self).config == old(self).config,
            final(self).ledger@ == old(self).ledger@,
            r matches Err(e) ==> *final(self) == *old(self),
            (r matches Err(e) && e == UploadError::TooManyRequests) <==> old(
                self,
            ).upload_limit_reached(origin@, now),
            (r matches Err(e) && e == UploadError::BodyTooLarge) <==> (!old(
                self,
            ).upload_limit_reached(origin@, now) && body@.len() > old(self).config.body_max_size),
            (r matches Err(e) && e == UploadError::MetadataTooLarge) <==> (!old(
                self,
            ).upload_limit_reached(origin@, now) && body@.len() <= old(self).config.body_max_size
                && metadata_oversized(metadata.filename@, metadata.content_type@)),
            (r matches Err(e) && e == UploadError::Internal) ==> (body@.len() > PLAINTEXT_MAX || now
                + old(self).config.lifetime_secs > u64::MAX || old(self).files@.len() > 0),
            (!old(self).upload_limit_reached(origin@, now) && body@.len() <= old(
                self,
            ).config.body_max_size && !metadata_oversized(
                metadata.filename@,
                metadata.content_type@,
            ) && body@.len() <= PLAINTEXT_MAX && now + old(self).config.lifetime_secs <= u64::MAX
                && old(self).files@.len() == 0) ==> r is Ok,
            r matches Ok(receipt) ==> ({
                let rec = final(self).files@.last();
                &&& !old(self).upload_limit_reached(origin@, now)
                &&& body@.len() <= old(self).config.body_max_size
                &&& !metadata_oversized(metadata.filename@, metadata.content_type@)
                &&& final(self).files@.len() == old(self).files@.len() + 1
                &&& final(self).files@.drop_last() == old(self).files@
                &&& !old(self).contains_file(receipt.id)
                &&& final(self).contains_file(receipt.id)
                &&& final(self).the_file(receipt.id) == rec
                &&& rec.id == receipt.id
                &&& receipt.key@.len() == KEY_LEN
                &&& key_matches(receipt.key@, rec.digest@)
                &&& rec.origin@ == origin@
                &&& rec.uploaded_at == now
                &&& rec.download_until == now + old(self).config.lifetime_secs
                &&& spec_decrypt(receipt.key@, rec.blob@) == Some(body@)
                &&& rec.encrypted_metadata@.len() <= METADATA_CIPHERTEXT_BUDGET
                &&& spec_decrypt(receipt.key@, rec.encrypted_metadata@) == Some(
                    metadata_encoded(metadata.filename@, metadata.content_type@),
                )
            }),
    {
        if self.is_upload_limit_reached(&origin, now) {
            return Err(UploadError::TooManyRequests);
        }
        if body.len() > self.config.body_max_size {
            return Err(UploadError::BodyTooLarge);
        }
        let flen = metadata.filename.len();
        let clen = metadata.content_type.len();
        if flen > METADATA_CIPHERTEXT_BUDGET - 2 - NONCE_LEN - TAG_LEN || clen
            > METADATA_CIPHERTEXT_BUDGET - 2 - NONCE_LEN - TAG_LEN - flen {
            return Err(UploadError::MetadataTooLarge);
        }
        let key = cipher::generate_key();
        let blob = match cipher::encrypt(&body, &key) {
            Ok(b) => b,
            Err(_) => {
                return Err(UploadError::Internal);
            },
        };
        let encoded = metadata::encode_metadata(metadata);
        let encrypted_metadata = match cipher::encrypt(&encoded, &key) {
            Ok(c) => c,
            Err(_) => {
                return Err(UploadError::Internal);
            },
        };
        let digest = match key_verifier::derive_verifier(&key) {
            Ok(d) => d,
            Err(_) => {
                return Err(UploadError::Internal);
            },
        };
        let id = crypto::fresh_id();
        match self.store_file(id, digest, origin, encrypted_metadata, blob, now) {
            Ok(_) => {},
            Err(_) => {
                return Err(UploadError::Internal);
            },
        }
        proof {
            let files = self.files@;
            assert(files[files.len() - 1].id == id);
            assert(self.contains_file(id));
            let j = choose|j: int| 0 <= j < files.len() && files[j].id == id;
            if j != files.len() - 1 {
                assert(files[j].id != files[files.len() - 1].id);
            }
        }
        Ok(UploadReceipt { id, key })
    }

    /// Download orchestrator, as one consistent decision. Eligibility is
    /// evaluated first; an ineligible identifier answers `NotFound` with no
    /// ledger entry, revealing nothing of the reason. For an eligible file
    /// the supplied key is checked against the verifier digest and both
    /// ciphertexts; failure records a failed attempt and answers
    /// `Unauthorized`, success records the consuming successful attempt and
    /// returns the decrypted content and metadata.
    pub fn download(
        &mut self,
        id: u128,
        key: &Vec<u8>,
        origin: Vec<u8>,
        now: u64,
    ) -> (r: Result<DownloadOutput, DownloadError>)
        requires
            old(self).wf(),
        ensures
            final(self).wf(),
            final(self).config == old(self).config,
            final(self).files@ == old(self).files@,
            (r matches Err(e) && e == DownloadError::NotFound) <==> !old(self).downloadable(
                id,
                now,
            ),
            (r matches Err(e) && e == DownloadError::NotFound) ==> final(self).ledger@ == old(
                self,
            ).ledger@,
            (r matches Err(e) && e == DownloadError::Unauthorized) <==> (old(self).downloadable(
                id,
                now,
            ) && !grants(old(self).the_file(id), key@)),
            (r matches Err(e) && e == DownloadError::Unauthorized) ==> final(self).ledger@ == old(
                self,
            ).ledger@.push(
                (LedgerEntry { file_id: id, origin, time: now, successful: false }),
            ),
            (r matches Ok(out)) <==> (old(self).downloadable(id, now) && grants(
                old(self).the_file(id),
                key@,
            )),
            r matches Ok(out) ==> ({
                let file = old(self).the_file(id);
                &&& final(self).ledger@ == old(self).ledger@.push(
                    (LedgerEntry { file_id: id, origin, time: now, successful: true }),
                )
                &&& Some(out.content@) == spec_decrypt(key@, file.blob@)
                &&& match spec_decrypt(key@, file.encrypted_metadata@) {
                    Some(encoded) => metadata_decoded(encoded) == Some(
                        (out.metadata.filename@, out.metadata.content_type@),
                    ),
                    None => false,
                }
            }),
    {
        let idx = match self.get_downloadable_file(id, now) {
            Some(i) => i,
            None => {
                return Err(DownloadError::NotFound);
            },
        };
        let mut output: Option<DownloadOutput> = None;
        if key.len() == KEY_LEN && key_verifier::verify(key, &self.files[idx].digest) {
            match cipher::decrypt(&self.files[idx].blob, key) {
                Err(_) => {},
                Ok(content) => match cipher::decrypt(&self.files[idx].encrypted_metadata, key) {
                    Err(_) => {},
                    Ok(encoded) => match metadata::decode_metadata(&encoded) {
                        None => {},
                        Some(m) => {
                            output = Some(DownloadOutput { content, metadata: m });
                        },
                    },
                },
            }
        }
        match output {
            Some(out) => {
                self.store_access_log(origin, id, true, now);
                Ok(out)
            },
            None => {
                self.store_access_log(origin, id, false, now);
                Err(DownloadError::Unauthorized)
            },
        }
    }
}

/// Build the public response payload for a fresh upload: the identifier in
/// its canonical text form and the raw key in url-safe base64.
pub fn receipt_response(receipt: &UploadReceipt) -> (r: Response)
    ensures
        r.id@ == uuid_text_of(receipt.id),
        r.key@ == b64_of(receipt.key@),
{
    Response { id: crypto::uuid_text(receipt.id), key: crypto::b64url_encode(&receipt.key) }
}

/// Encode a raw key for transport.
pub fn encode_key(key: &Vec<u8>) -> (r: String)
    ensures
        r@ == b64_of(key@),
{
    crypto::b64url_encode(key)
}

/// Decode a transported key. Succeeds exactly on canonical url-safe base64
/// text, and inverts `encode_key`.
pub fn decode_key(text: &str) -> (r: Option<Vec<u8>>)
    ensures
        r matches Some(v) ==> text@ == b64_of(v@),
        r matches Some(v) ==> forall|b: Seq<u8>| text@ == b64_of(b) ==> b == v@,
        r is None ==> forall|b: Seq<u8>| text@ != b64_of(b),
{
    match crypto::b64url_decode(text) {
        Ok(v) => Some(v),
        Err(_) => None,
    }
}

} // verus!
