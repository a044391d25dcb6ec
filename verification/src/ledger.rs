use vstd::prelude::*;

verus! {

/// One append-only record of a download attempt. Entries are never updated
/// or deleted; their position in the ledger is their identity.
pub struct LedgerEntry {
    /// The file the attempt was made against.
    pub file_id: u128,
    /// Origin address of the requester.
    pub origin: Vec<u8>,
    /// When the attempt was made, in seconds.
    pub time: u64,
    /// Whether the attempt retrieved the content.
    pub successful: bool,
}

/// How many attempts, successful or not, the ledger holds for `file_id`.
pub open spec fn attempt_count(ledger: Seq<LedgerEntry>, file_id: u128) -> nat
    decreases ledger.len(),
{
    if ledger.len() == 0 {
        0
    } else {
        attempt_count(ledger.drop_last(), file_id) + if ledger.last().file_id == file_id {
            1nat
        } else {
            0nat
        }
    }
}

/// Whether some attempt against `file_id` already succeeded: a successful
/// retrieval consumes the secret, one-shot.
pub open spec fn consumed(ledger: Seq<LedgerEntry>, file_id: u128) -> bool {
    exists|i: int|
        0 <= i < ledger.len() && ledger[i].file_id == file_id && ledger[i].successful
}

/// Appending an entry raises the attempt count of its own file by one and
/// leaves every other file's count unchanged.
pub proof fn lemma_attempt_count_push(ledger: Seq<LedgerEntry>, entry: LedgerEntry, file_id: u128)
    ensures
        attempt_count(ledger.push(entry), file_id) == attempt_count(ledger, file_id) + if entry.file_id
            == file_id {
            1int
        } else {
            0int
        },
{
    assert(ledger.push(entry).drop_last() =~= ledger);
}

/// Appending an entry marks its file consumed exactly when the entry
/// succeeded or the file was consumed already.
pub proof fn lemma_consumed_push(ledger: Seq<LedgerEntry>, entry: LedgerEntry, file_id: u128)
    ensures
        consumed(ledger.push(entry), file_id) == (consumed(ledger, file_id) || (entry.file_id
            == file_id && entry.successful)),
{
    let appended = ledger.push(entry);
    if consumed(ledger, file_id) {
        let i = choose|i: int|
            0 <= i < ledger.len() && ledger[i].file_id == file_id && ledger[i].successful;
        assert(appended[i].file_id == file_id && appended[i].successful);
    }
    if entry.file_id == file_id && entry.successful {
        assert(appended[ledger.len() as int].file_id == file_id);
    }
    if consumed(appended, file_id) {
        let i = choose|i: int|
            0 <= i < appended.len() && appended[i].file_id == file_id && appended[i].successful;
        if i < ledger.len() {
            assert(ledger[i].file_id == file_id && ledger[i].successful);
        }
    }
}

} // verus!
