//! Cryptographic primitives from outside crates: BLAKE3, ChaCha20-Poly1305
//! and the operating-system random number generator.

use chacha20poly1305::aead::{Aead, KeyInit};
use chacha20poly1305::{ChaCha20Poly1305, Key, Nonce};
use ed25519_dalek::Signer;
use rand_core::RngCore;
use vstd::prelude::*;

use crate::codec::opt_bytes;

verus! {

/// BLAKE3 digest (32 bytes) of the given data.
pub uninterp spec fn blake3_digest(data: Seq<u8>) -> Seq<u8>;

/// ChaCha20-Poly1305 sealing (ciphertext followed by the 16-byte tag), no associated data.
pub uninterp spec fn chacha20poly1305_seal(key: Seq<u8>, nonce: Seq<u8>, plaintext: Seq<u8>) -> Seq<u8>;

/// ChaCha20-Poly1305 opening of ciphertext-plus-tag, no associated data;
/// `None` when authentication fails.
pub uninterp spec fn chacha20poly1305_open(key: Seq<u8>, nonce: Seq<u8>, sealed: Seq<u8>) -> Option<Seq<u8>>;

/// Message length accepted by the cipher: fewer than `u32::MAX` blocks of 64 bytes.
pub open spec fn chacha20poly1305_accepts(len: nat) -> bool {
    len / 64 < u32::MAX
}

/// `blake3::hash`, as the 32 bytes of `Hash::as_bytes`.
/// Claimed: the digest is `blake3_digest(data)` and has 32 bytes.
#[verifier::external_body]
pub(crate) fn blake3_hash(data: &[u8]) -> (digest: Vec<u8>)
    ensures
        digest@ == blake3_digest(data@),
        digest@.len() == 32,
{
    blake3::hash(data).as_bytes().to_vec()
}

/// `ChaCha20Poly1305::encrypt` under a key built with `KeyInit::new`.
/// Claimed (from the crate's source): it fails exactly when the message has
/// `u32::MAX` or more 64-byte blocks; otherwise the result is the sealed text,
/// 16 bytes longer than the message, and opening it gives the message back.
#[verifier::external_body]
pub(crate) fn chacha20poly1305_encrypt(key: &[u8], nonce: &[u8], plaintext: &[u8]) -> (sealed: Option<Vec<u8>>)
    requires
        key@.len() == 32,
        nonce@.len() == 12,
    ensures
        sealed is Some <==> chacha20poly1305_accepts(plaintext@.len() as nat),
        sealed matches Some(c) ==> {
            &&& c@ == chacha20poly1305_seal(key@, nonce@, plaintext@)
            &&& c@.len() == plaintext@.len() + 16
            &&& chacha20poly1305_open(key@, nonce@, c@) == Some(plaintext@)
        },
{
    ChaCha20Poly1305::new(Key::from_slice(key)).encrypt(Nonce::from_slice(nonce), plaintext).ok()
}

/// `ChaCha20Poly1305::decrypt` under a key built with `KeyInit::new`.
/// Claimed: the result is `chacha20poly1305_open(key, nonce, sealed)`.
#[verifier::external_body]
pub(crate) fn chacha20poly1305_decrypt(key: &[u8], nonce: &[u8], sealed: &[u8]) -> (plaintext: Option<Vec<u8>>)
    requires
        key@.len() == 32,
        nonce@.len() == 12,
    ensures
        opt_bytes(plaintext) == chacha20poly1305_open(key@, nonce@, sealed@),
{
    ChaCha20Poly1305::new(Key::from_slice(key)).decrypt(Nonce::from_slice(nonce), sealed).ok()
}

/// `rand_core::OsRng::try_fill_bytes` on a fresh buffer of `len` bytes;
/// `None` when the operating system cannot supply them.
/// Claimed: only the length of what is supplied; the bytes themselves and
/// whether the source succeeds are not claimed.
#[verifier::external_body]
pub(crate) fn os_random_bytes(len: usize) -> (bytes: Option<Vec<u8>>)
    ensures
        bytes matches Some(b) ==> b@.len() == len,
{
    let mut buf = vec![0u8; len];
    match rand_core::OsRng.try_fill_bytes(&mut buf) {
        Ok(()) => Some(buf),
        Err(_) => None,
    }
}

} // verus!

verus! {

/// Whether 32 bytes are the compressed form of an Edwards point (`VerifyingKey::from_bytes` succeeds).
pub uninterp spec fn ed25519_point_valid(key: Seq<u8>) -> bool;

/// Ed25519 signature (64 bytes) of a message under a 32-byte secret key.
pub uninterp spec fn ed25519_signature(secret_key: Seq<u8>, message: Seq<u8>) -> Seq<u8>;

/// Whether `VerifyingKey::verify_strict` accepts a 64-byte signature of a message under a public key.
pub uninterp spec fn ed25519_verify_strict(public_key: Seq<u8>, message: Seq<u8>, signature: Seq<u8>) -> bool;

/// `ed25519_dalek::VerifyingKey::from_bytes`, reduced to whether it succeeds.
/// Claimed: the result is `ed25519_point_valid(key)`.
#[verifier::external_body]
pub(crate) fn ed25519_public_key_valid(key: &[u8]) -> (valid: bool)
    requires
        key@.len() == 32,
    ensures
        valid == ed25519_point_valid(key@),
{
    match <&[u8; 32]>::try_from(key) {
        Ok(k) => ed25519_dalek::VerifyingKey::from_bytes(k).is_ok(),
        Err(_) => false,
    }
}

/// `ed25519_dalek::SigningKey::from_bytes` followed by `Signer::sign`, as signature bytes.
/// Claimed: the signature is `ed25519_signature(secret_key, message)` and has 64 bytes.
#[verifier::external_body]
pub(crate) fn ed25519_sign(secret_key: &[u8], message: &[u8]) -> (signature: Vec<u8>)
    requires
        secret_key@.len() == 32,
    ensures
        signature@ == ed25519_signature(secret_key@, message@),
        signature@.len() == 64,
{
    match <&[u8; 32]>::try_from(secret_key) {
        Ok(sk) => ed25519_dalek::SigningKey::from_bytes(sk).sign(message).to_bytes().to_vec(),
        Err(_) => Vec::new(),
    }
}

/// `ed25519_dalek::VerifyingKey::verify_strict` on a key given by its bytes and a
/// signature given by its 64 bytes (`Signature::from_bytes`); a key that does not
/// decode does not verify.
/// Claimed: the result is `ed25519_verify_strict(public_key, message, signature)`.
#[verifier::external_body]
pub(crate) fn ed25519_verify(public_key: &[u8], message: &[u8], signature: &[u8]) -> (ok: bool)
    requires
        public_key@.len() == 32,
        signature@.len() == 64,
    ensures
        ok == ed25519_verify_strict(public_key@, message@, signature@),
{
    let (Ok(pk), Ok(sig)) = (<&[u8; 32]>::try_from(public_key), <&[u8; 64]>::try_from(signature)) else {
        return false;
    };
    match ed25519_dalek::VerifyingKey::from_bytes(pk) {
        Ok(k) => k.verify_strict(message, &ed25519_dalek::Signature::from_bytes(sig)).is_ok(),
        Err(_) => false,
    }
}

} // verus!
