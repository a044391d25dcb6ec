use vstd::prelude::*;

use crate::crypto;
use crate::crypto::opens_to;

verus! {

/// Length in bytes of a raw symmetric key.
pub const KEY_LEN: usize = 32;

/// Length in bytes of the per-call nonce placed in front of each ciphertext.
pub const NONCE_LEN: usize = 12;

/// Length in bytes of the authentication tag the cipher appends.
pub const TAG_LEN: usize = 16;

/// Largest plaintext the cipher seals in one call, in bytes.
pub const PLAINTEXT_MAX: u64 = 0x10_0000_0000;

/// A failure of the cipher engine.
#[derive(Debug)]
pub enum CipherError {
    /// The ciphertext does not authenticate under the supplied key: it was
    /// sealed under a different key, or tampered with.
    AuthenticationFailure,
    /// The plaintext exceeds the cipher's one-call size bound.
    PlaintextTooLong,
}

/// What decrypting `ct` under `key` yields. A ciphertext is self-contained:
/// its first `NONCE_LEN` bytes are the nonce it was sealed with, the rest is
/// the sealed box, which opens exactly when it authenticates under `key`.
pub open spec fn spec_decrypt(key: Seq<u8>, ct: Seq<u8>) -> Option<Seq<u8>> {
    if ct.len() >= NONCE_LEN {
        opens_to(key, ct.take(NONCE_LEN as int), ct.skip(NONCE_LEN as int))
    } else {
        None
    }
}

/// Produce a fresh random symmetric key.
pub fn generate_key() -> (k: Vec<u8>)
    ensures
        k@.len() == KEY_LEN,
{
    crypto::fresh_key()
}

/// Encrypt `plaintext` under `key` with authenticated encryption and a fresh
/// random nonce. Succeeds on every plaintext up to the cipher's size bound.
/// The returned ciphertext is self-contained: decrypting it under the same
/// key yields the plaintext again.
pub fn encrypt(plaintext: &Vec<u8>, key: &Vec<u8>) -> (r: Result<Vec<u8>, CipherError>)
    requires
        key@.len() == KEY_LEN,
    ensures
        (r matches Ok(ct)) <==> plaintext@.len() <= PLAINTEXT_MAX,
        r matches Ok(ct) ==> spec_decrypt(key@, ct@) == Some(plaintext@),
        r matches Ok(ct) ==> ct@.len() == plaintext@.len() + NONCE_LEN + TAG_LEN,
        r matches Err(e) ==> e == CipherError::PlaintextTooLong,
{
    if plaintext.len() as u64 > PLAINTEXT_MAX {
        return Err(CipherError::PlaintextTooLong);
    }
    let nonce = crypto::fresh_nonce();
    let sealed = match crypto::aead_seal(key, &nonce, plaintext) {
        Ok(s) => s,
        Err(_) => {
            return Err(CipherError::PlaintextTooLong);
        },
    };
    let mut out: Vec<u8> = Vec::new();
    let mut i: usize = 0;
    while i < nonce.len()
        invariant
            i <= nonce@.len(),
            out@ == nonce@.take(i as int),
        decreases nonce@.len() - i,
    {
        out.push(nonce[i]);
        i = i + 1;
        proof {
            assert(out@ =~= nonce@.take(i as int));
        }
    }
    assert(out@ =~= nonce@);
    let mut j: usize = 0;
    while j < sealed.len()
        invariant
            j <= sealed@.len(),
            out@ == nonce@ + sealed@.take(j as int),
        decreases sealed@.len() - j,
    {
        out.push(sealed[j]);
        j = j + 1;
        proof {
            assert(out@ =~= nonce@ + sealed@.take(j as int));
        }
    }
    proof {
        assert(out@ =~= nonce@ + sealed@);
        assert(out@.take(NONCE_LEN as int) =~= nonce@);
        assert(out@.skip(NONCE_LEN as int) =~= sealed@);
    }
    Ok(out)
}

/// Decrypt a self-contained ciphertext under `key`. Fails closed: a
/// ciphertext that does not authenticate under `key` yields an
/// authentication failure, never altered bytes. Together with `encrypt`'s
/// contract this gives the round trip: for all content and keys, decrypting
/// an encryption under the same key returns exactly the content.
pub fn decrypt(ciphertext: &Vec<u8>, key: &Vec<u8>) -> (r: Result<Vec<u8>, CipherError>)
    requires
        key@.len() == KEY_LEN,
    ensures
        (r matches Ok(pt)) <==> spec_decrypt(key@, ciphertext@) is Some,
        r matches Ok(pt) ==> spec_decrypt(key@, ciphertext@) == Some(pt@),
        r matches Err(e) ==> e == CipherError::AuthenticationFailure,
{
    if ciphertext.len() < NONCE_LEN {
        return Err(CipherError::AuthenticationFailure);
    }
    let mut nonce: Vec<u8> = Vec::new();
    let mut i: usize = 0;
    while i < NONCE_LEN
        invariant
            i <= NONCE_LEN,
            ciphertext@.len() >= NONCE_LEN,
            nonce@ == ciphertext@.take(i as int),
        decreases NONCE_LEN - i,
    {
        nonce.push(ciphertext[i]);
        i = i + 1;
        proof {
            assert(nonce@ =~= ciphertext@.take(i as int));
        }
    }
    let mut body: Vec<u8> = Vec::new();
    let mut j: usize = NONCE_LEN;
    while j < ciphertext.len()
        invariant
            NONCE_LEN <= j <= ciphertext@.len(),
            body@ == ciphertext@.subrange(NONCE_LEN as int, j as int),
        decreases ciphertext@.len() - j,
    {
        body.push(ciphertext[j]);
        j = j + 1;
        proof {
            assert(body@ =~= ciphertext@.subrange(NONCE_LEN as int, j as int));
        }
    }
    proof {
        assert(body@ =~= ciphertext@.skip(NONCE_LEN as int));
    }
    match crypto::aead_open(key, &nonce, &body) {
        Ok(pt) => Ok(pt),
        Err(_) => Err(CipherError::AuthenticationFailure),
    }
}

} // verus!
