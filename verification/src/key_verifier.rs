use vstd::prelude::*;

use crate::crypto;
use crate::crypto::key_matches;

verus! {

/// Largest key the digest accepts, in bytes.
pub const DIGEST_INPUT_MAX: u64 = 0xFFFF_FFFF;

/// Compute the one-way, memory-hard verifier digest of `key`. Succeeds on
/// every key up to the digest's input bound; the system's own keys are 32
/// bytes. The digest is the only artifact the server keeps: it authenticates
/// a later request without storing the key, and it cannot be turned back
/// into the key. The contract states the law that a key always matches its
/// own freshly derived digest.
pub fn derive_verifier(key: &Vec<u8>) -> (r: Result<String, ()>)
    ensures
        (r matches Ok(digest)) <==> key@.len() <= DIGEST_INPUT_MAX,
        r matches Ok(digest) ==> key_matches(key@, digest@),
{
    if key.len() as u64 > DIGEST_INPUT_MAX {
        return Err(());
    }
    crypto::phc_hash(key)
}

/// Check `key` against a stored verifier digest, in constant time, without
/// ever reconstructing the key from the digest.
pub fn verify(key: &Vec<u8>, digest: &String) -> (r: bool)
    ensures
        r == key_matches(key@, digest@),
{
    crypto::phc_verify(key, digest)
}

} // verus!
