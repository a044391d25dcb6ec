//! An ephemeral, zero-knowledge file vault.
//!
//! A client uploads content and receives an opaque identifier together with a
//! one-time symmetric key that is never persisted. A holder of the pair may
//! later retrieve the decrypted content, subject to an expiry window, a
//! bounded number of access attempts, and one-shot consumption. The vault
//! stores only ciphertext and a one-way verifier digest of the key.

pub mod cipher;
pub mod config;
pub mod crypto;
pub mod key_verifier;
pub mod ledger;
pub mod metadata;
pub mod request;
pub mod vault;
