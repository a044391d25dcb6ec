use treasure_chest::cipher::{self, CipherError};
use treasure_chest::key_verifier;
use treasure_chest::metadata::{Metadata, decode_metadata, encode_metadata};
use treasure_chest::vault::{decode_key, encode_key};

#[test]
fn encrypt_then_decrypt_returns_content() {
    let key = cipher::generate_key();
    let content: Vec<u8> = b"hello".to_vec();
    let ciphertext = cipher::encrypt(&content, &key).unwrap();
    assert_eq!(ciphertext.len(), content.len() + 28);
    let decrypted = cipher::decrypt(&ciphertext, &key).unwrap();
    assert_eq!(decrypted, content);
}

#[test]
fn encrypt_then_decrypt_empty_content() {
    let key = cipher::generate_key();
    let content: Vec<u8> = Vec::new();
    let ciphertext = cipher::encrypt(&content, &key).unwrap();
    let decrypted = cipher::decrypt(&ciphertext, &key).unwrap();
    assert_eq!(decrypted, content);
}

#[test]
fn decrypt_with_wrong_key_fails_closed() {
    let key = cipher::generate_key();
    let other_key = cipher::generate_key();
    assert_ne!(key, other_key);
    let content: Vec<u8> = b"hello".to_vec();
    let ciphertext = cipher::encrypt(&content, &key).unwrap();
    let result = cipher::decrypt(&ciphertext, &other_key);
    assert!(matches!(result, Err(CipherError::AuthenticationFailure)));
}

#[test]
fn decrypt_of_tampered_ciphertext_fails_closed() {
    let key = cipher::generate_key();
    let content: Vec<u8> = b"hello".to_vec();
    let mut ciphertext = cipher::encrypt(&content, &key).unwrap();
    let last = ciphertext.len() - 1;
    ciphertext[last] ^= 1;
    let result = cipher::decrypt(&ciphertext, &key);
    assert!(matches!(result, Err(CipherError::AuthenticationFailure)));
}

#[test]
fn decrypt_of_truncated_ciphertext_fails_closed() {
    let key = cipher::generate_key();
    let short: Vec<u8> = vec![0u8; 5];
    let result = cipher::decrypt(&short, &key);
    assert!(matches!(result, Err(CipherError::AuthenticationFailure)));
}

#[test]
fn independent_nonces_for_same_key() {
    let key = cipher::generate_key();
    let content: Vec<u8> = b"same plaintext".to_vec();
    let first = cipher::encrypt(&content, &key).unwrap();
    let second = cipher::encrypt(&content, &key).unwrap();
    assert_ne!(first[..12], second[..12]);
}

#[test]
fn key_verifies_against_its_own_digest() {
    let key = cipher::generate_key();
    let digest = key_verifier::derive_verifier(&key).unwrap();
    assert!(key_verifier::verify(&key, &digest));
}

#[test]
fn single_bit_mutation_fails_verification() {
    let key = cipher::generate_key();
    let digest = key_verifier::derive_verifier(&key).unwrap();
    for bit in 0..8 {
        let mut mutated = key.clone();
        mutated[0] ^= 1u8 << bit;
        assert!(!key_verifier::verify(&mutated, &digest));
    }
    let mut mutated = key.clone();
    mutated[31] ^= 0x80;
    assert!(!key_verifier::verify(&mutated, &digest));
}

#[test]
fn digest_never_contains_raw_key() {
    let key = cipher::generate_key();
    let digest = key_verifier::derive_verifier(&key).unwrap();
    assert!(digest.starts_with("$argon2"));
    let encoded = encode_key(&key);
    assert!(!digest.contains(&encoded));
}

#[test]
fn metadata_encoding_round_trips() {
    let metadata = Metadata { filename: b"greeting.txt".to_vec(), content_type: b"text/plain".to_vec() };
    let encoded = encode_metadata(&metadata);
    assert_eq!(encoded.len(), 2 + 12 + 10);
    let decoded = decode_metadata(&encoded).unwrap();
    assert_eq!(decoded.filename, b"greeting.txt".to_vec());
    assert_eq!(decoded.content_type, b"text/plain".to_vec());
}

#[test]
fn metadata_encoding_round_trips_empty_fields() {
    let metadata = Metadata { filename: Vec::new(), content_type: Vec::new() };
    let encoded = encode_metadata(&metadata);
    assert_eq!(encoded, vec![0u8, 0u8]);
    let decoded = decode_metadata(&encoded).unwrap();
    assert!(decoded.filename.is_empty());
    assert!(decoded.content_type.is_empty());
}

#[test]
fn malformed_metadata_bytes_do_not_decode() {
    assert!(decode_metadata(&Vec::new()).is_none());
    assert!(decode_metadata(&vec![3u8, b'a']).is_none());
    assert!(decode_metadata(&vec![1u8, b'a', 2u8, b'b']).is_none());
    assert!(decode_metadata(&vec![0u8, 0u8, 0u8]).is_none());
}

#[test]
fn key_transport_round_trips() {
    let key = cipher::generate_key();
    let text = encode_key(&key);
    let back = decode_key(&text).unwrap();
    assert_eq!(back, key);
}

#[test]
fn key_encoding_is_exact() {
    let bytes: Vec<u8> = b"hello".to_vec();
    assert_eq!(encode_key(&bytes), "aGVsbG8=");
}

#[test]
fn invalid_key_text_does_not_decode() {
    assert!(decode_key("not base64 !!").is_none());
    assert!(decode_key("aGVsbG8").is_none());
}
