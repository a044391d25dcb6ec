use vstd::prelude::*;

use aes_gcm::KeyInit;
use aes_gcm::AeadCore;
use aes_gcm::aead::Aead;
use argon2::PasswordHasher;
use argon2::PasswordVerifier;

verus! {

/// What opening a sealed box under `key` and `nonce` yields: the plaintext
/// when the box authenticates, nothing otherwise. This names the result of
/// `aes_gcm`'s decryption, which is a function of its arguments alone.
pub uninterp spec fn opens_to(key: Seq<u8>, nonce: Seq<u8>, ct: Seq<u8>) -> Option<Seq<u8>>;

/// Whether `key` matches the one-way verifier `digest`. This names the result
/// of `argon2`'s password verification over a PHC-formatted digest string,
/// which is a function of its arguments alone.
pub uninterp spec fn key_matches(key: Seq<u8>, digest: Seq<char>) -> bool;

/// The url-safe, padded base64 text of `bytes`. This names the result of
/// `base64`'s encoding, which is a function of its argument alone.
pub uninterp spec fn b64_of(bytes: Seq<u8>) -> Seq<char>;

/// The canonical hyphenated text of a 128-bit identifier. This names the
/// result of `uuid`'s formatting, which is a function of its argument alone.
pub uninterp spec fn uuid_text_of(id: u128) -> Seq<char>;

/// Relies on aes_gcm::Aes256Gcm::generate_key: a fresh random 256-bit key.
/// Nothing is promised of the value beyond its length.
#[verifier::external_body]
pub(crate) fn fresh_key() -> (k: Vec<u8>)
    ensures
        k@.len() == 32,
{
    aes_gcm::Aes256Gcm::generate_key(&mut aes_gcm::aead::OsRng).to_vec()
}

/// Relies on aes_gcm::AeadCore::generate_nonce: a fresh random 96-bit nonce.
/// Nothing is promised of the value beyond its length.
#[verifier::external_body]
pub(crate) fn fresh_nonce() -> (n: Vec<u8>)
    ensures
        n@.len() == 12,
{
    aes_gcm::Aes256Gcm::generate_nonce(&mut aes_gcm::aead::OsRng).to_vec()
}

/// Relies on aes_gcm::aead::Aead::encrypt (AES-256-GCM): sealing a plaintext
/// within the cipher's size bound (`P_MAX`, 2^36 bytes) succeeds, appends a
/// 16-byte tag, and decrypting the result under the same key and nonce gives
/// back the plaintext.
#[verifier::external_body]
pub(crate) fn aead_seal(key: &Vec<u8>, nonce: &Vec<u8>, plaintext: &Vec<u8>) -> (r: Result<
    Vec<u8>,
    (),
>)
    requires
        key@.len() == 32,
        nonce@.len() == 12,
        plaintext@.len() <= 0x10_0000_0000,
    ensures
        r is Ok,
        r matches Ok(ct) ==> opens_to(key@, nonce@, ct@) == Some(plaintext@),
        r matches Ok(ct) ==> ct@.len() == plaintext@.len() + 16,
{
    let cipher = match aes_gcm::Aes256Gcm::new_from_slice(key.as_slice()) {
        Ok(c) => c,
        Err(_) => return Err(()),
    };
    match cipher.encrypt(aes_gcm::Nonce::from_slice(nonce.as_slice()), plaintext.as_slice()) {
        Ok(ct) => Ok(ct),
        Err(_) => Err(()),
    }
}

/// Relies on aes_gcm::aead::Aead::decrypt (AES-256-GCM): opening succeeds,
/// with the original plaintext, exactly when the tag authenticates under this
/// key and nonce.
#[verifier::external_body]
pub(crate) fn aead_open(key: &Vec<u8>, nonce: &Vec<u8>, ciphertext: &Vec<u8>) -> (r: Result<
    Vec<u8>,
    (),
>)
    requires
        key@.len() == 32,
        nonce@.len() == 12,
    ensures
        (r matches Ok(pt)) <==> opens_to(key@, nonce@, ciphertext@) is Some,
        r matches Ok(pt) ==> opens_to(key@, nonce@, ciphertext@) == Some(pt@),
{
    let cipher = match aes_gcm::Aes256Gcm::new_from_slice(key.as_slice()) {
        Ok(c) => c,
        Err(_) => return Err(()),
    };
    match cipher.decrypt(aes_gcm::Nonce::from_slice(nonce.as_slice()), ciphertext.as_slice()) {
        Ok(pt) => Ok(pt),
        Err(_) => Err(()),
    }
}

/// Relies on argon2::PasswordHasher::hash_password with a fresh random
/// 16-byte salt (password_hash::SaltString::generate): for a password within
/// argon2's length bound (`MAX_PWD_LEN`, 2^32 - 1 bytes) hashing succeeds,
/// and the returned PHC string verifies against the hashed key. The salt is
/// random, so nothing more is promised of the digest's value.
#[verifier::external_body]
pub(crate) fn phc_hash(key: &Vec<u8>) -> (r: Result<String, ()>)
    requires
        key@.len() <= 0xFFFF_FFFF,
    ensures
        r is Ok,
        r matches Ok(digest) ==> key_matches(key@, digest@),
{
    let salt = argon2::password_hash::SaltString::generate(
        &mut argon2::password_hash::rand_core::OsRng,
    );
    match argon2::Argon2::default().hash_password(key.as_slice(), &salt) {
        Ok(h) => Ok(h.to_string()),
        Err(_) => Err(()),
    }
}

/// Relies on argon2::PasswordVerifier::verify_password over a digest parsed
/// with password_hash::PasswordHash::new: recomputes the memory-hard hash
/// with the digest's own salt and parameters and compares in constant time.
/// An unparseable digest matches no key.
#[verifier::external_body]
pub(crate) fn phc_verify(key: &Vec<u8>, digest: &String) -> (r: bool)
    ensures
        r == key_matches(key@, digest@),
{
    match argon2::password_hash::PasswordHash::new(digest.as_str()) {
        Ok(parsed) => argon2::Argon2::default().verify_password(key.as_slice(), &parsed).is_ok(),
        Err(_) => false,
    }
}

/// Relies on uuid::Uuid::new_v4: a fresh random 128-bit identifier. Nothing
/// is promised of the value.
#[verifier::external_body]
pub(crate) fn fresh_id() -> (id: u128) {
    uuid::Uuid::new_v4().as_u128()
}

/// Relies on uuid::Uuid's canonical formatting of a 128-bit value as
/// hyphenated text.
#[verifier::external_body]
pub(crate) fn uuid_text(id: u128) -> (r: String)
    ensures
        r@ == uuid_text_of(id),
{
    uuid::Uuid::from_u128(id).to_string()
}

/// Relies on base64::Engine::encode with the padded url-safe alphabet.
#[verifier::external_body]
pub(crate) fn b64url_encode(bytes: &Vec<u8>) -> (r: String)
    ensures
        r@ == b64_of(bytes@),
{
    base64::Engine::encode(&base64::engine::general_purpose::URL_SAFE, bytes.as_slice())
}

/// Relies on base64::Engine::decode with the padded url-safe alphabet, whose
/// default configuration rejects non-canonical padding and trailing bits, so
/// decoding succeeds exactly on canonical encodings and inverts encoding.
#[verifier::external_body]
pub(crate) fn b64url_decode(text: &str) -> (r: Result<Vec<u8>, ()>)
    ensures
        r matches Ok(v) ==> text@ == b64_of(v@),
        r matches Ok(v) ==> forall|b: Seq<u8>| text@ == b64_of(b) ==> b == v@,
        r matches Err(e) ==> forall|b: Seq<u8>| text@ != b64_of(b),
{
    match base64::Engine::decode(&base64::engine::general_purpose::URL_SAFE, text.as_bytes()) {
        Ok(v) => Ok(v),
        Err(_) => Err(()),
    }
}

} // verus!
