//! Field-level encryption engine. The engine holds at most one 32-byte key,
//! derived from the user key material; fields are sealed with
//! ChaCha20-Poly1305 and carried as unpadded base64 text.

pub mod aead;
pub mod primitives;

use vstd::prelude::*;

verus! {

pub const NONCE_LEN: usize = 12;
pub const KEY_LEN: usize = 32;

#[derive(Debug, Clone, Copy, PartialEq, Eq, Structural)]
pub enum CryptoError {
    KeyUnavailable,
    InvalidKey,
    InvalidEncoding,
    InvalidCiphertext,
    InvalidPlaintext,
    EncryptFailed,
    DecryptFailed,
}

} // verus!

verus! {

use crate::codec::{b64_std_bytes, b64_std_text, b64_nopad_len};
use crate::crypto::primitives::{blake3_digest, blake3_hash, chacha20poly1305_accepts,
    chacha20poly1305_open, chacha20poly1305_seal};
use vstd::utf8::{decode_utf8, encode_utf8, valid_utf8};

/// The 32-byte cipher key derived from user key material: the material itself
/// when it already has 32 bytes, its BLAKE3 digest otherwise.
pub open spec fn spec_derive_key(user_key: Seq<u8>) -> Seq<u8> {
    if user_key.len() == KEY_LEN {
        user_key
    } else {
        blake3_digest(user_key)
    }
}

/// The text of an encrypted field: unpadded standard base64 of the nonce
/// followed by the sealed UTF-8 bytes of the plaintext.
pub open spec fn spec_encrypt_field(plaintext: Seq<char>, user_key: Seq<u8>, nonce: Seq<u8>) -> Result<Seq<char>, CryptoError> {
    let key = spec_derive_key(user_key);
    let msg = encode_utf8(plaintext);
    if key.len() != KEY_LEN {
        Err(CryptoError::InvalidKey)
    } else if !chacha20poly1305_accepts(msg.len()) {
        Err(CryptoError::EncryptFailed)
    } else if b64_nopad_len((NONCE_LEN + msg.len() + 16) as nat) > usize::MAX {
        Err(CryptoError::EncryptFailed)
    } else {
        Ok(b64_std_text(nonce + chacha20poly1305_seal(key, nonce, msg)))
    }
}

/// The plaintext of an encrypted field, or the first check that fails.
pub open spec fn spec_decrypt_field(text: Seq<char>, user_key: Seq<u8>) -> Result<Seq<char>, CryptoError> {
    let key = spec_derive_key(user_key);
    if key.len() != KEY_LEN {
        Err(CryptoError::InvalidKey)
    } else {
        match b64_std_bytes(text) {
            None => Err(CryptoError::InvalidEncoding),
            Some(decoded) => if decoded.len() < NONCE_LEN + 1 {
                Err(CryptoError::InvalidCiphertext)
            } else {
                match chacha20poly1305_open(
                    key,
                    decoded.subrange(0, NONCE_LEN as int),
                    decoded.subrange(NONCE_LEN as int, decoded.len() as int),
                ) {
                    None => Err(CryptoError::DecryptFailed),
                    Some(msg) => if valid_utf8(msg) {
                        Ok(decode_utf8(msg))
                    } else {
                        Err(CryptoError::InvalidPlaintext)
                    },
                }
            },
        }
    }
}

/// Whether a plaintext can be sealed: its UTF-8 bytes are within the cipher's
/// block limit and the framed text's length fits in memory.
pub open spec fn encryptable(plaintext: Seq<char>) -> bool {
    let n = encode_utf8(plaintext).len();
    chacha20poly1305_accepts(n) && b64_nopad_len((NONCE_LEN + n + 16) as nat) <= usize::MAX
}

/// Whether a text frames a sealed plaintext under a nonce: it is the unpadded
/// base64 of the nonce followed by the sealed bytes, which are 16 bytes (the
/// tag) longer than the plaintext's UTF-8 bytes.
pub open spec fn frames(text: Seq<char>, plaintext: Seq<char>, nonce: Seq<u8>) -> bool {
    let n = encode_utf8(plaintext).len();
    &&& text.len() == b64_nopad_len((NONCE_LEN + n + 16) as nat)
    &&& match b64_std_bytes(text) {
        Some(b) => b.len() == NONCE_LEN + n + 16 && b.subrange(0, NONCE_LEN as int) == nonce,
        None => false,
    }
}

/// A possible outcome of encrypting a field under a 32-byte key with a fresh
/// nonce: either the random source failed (`EncryptFailed`), or the text is the
/// encryption under some 12-byte nonce, frames it, differs from the plaintext
/// and decrypts back to it; and a plaintext that cannot be sealed always fails.
pub open spec fn possible_field_encryption(plaintext: Seq<char>, key: Seq<u8>, r: Result<Seq<char>, CryptoError>) -> bool {
    &&& !encryptable(plaintext) ==> r is Err
    &&& match r {
        Err(e) => e == CryptoError::EncryptFailed,
        Ok(t) => {
            &&& exists|nonce: Seq<u8>|
                nonce.len() == NONCE_LEN && #[trigger] spec_encrypt_field(plaintext, key, nonce) == Ok::<Seq<char>, CryptoError>(t)
                    && frames(t, plaintext, nonce)
            &&& spec_decrypt_field(t, key) == Ok::<Seq<char>, CryptoError>(plaintext)
            &&& t != plaintext
        },
    }
}

/// UTF-8 takes at least one byte per character.
pub proof fn lemma_encode_utf8_at_least(s: Seq<char>)
    ensures
        encode_utf8(s).len() >= s.len(),
    decreases s.len(),
{
    if s.len() > 0 {
        lemma_encode_utf8_at_least(s.drop_first());
    }
}

/// The base64 text of `m >= 8` bytes is at least `m` characters long.
pub proof fn lemma_b64_len_at_least(m: nat)
    requires
        m >= 8,
    ensures
        b64_nopad_len(m) >= m,
{
    assert(4 * (m / 3) + (if m % 3 == 0 { 0 } else { m % 3 + 1 }) >= m) by (nonlinear_arith);
}

/// Two keys whose derivations agree decrypt alike: a 32-byte key derived from
/// material decrypts exactly as the material does.
pub proof fn law_derived_key_decrypts_as_material(material: Seq<u8>, text: Seq<char>)
    requires
        spec_derive_key(material).len() == KEY_LEN,
    ensures
        spec_decrypt_field(text, spec_derive_key(material)) == spec_decrypt_field(text, material),
{
}

/// View of a string result.
pub open spec fn text_result(r: Result<String, CryptoError>) -> Result<Seq<char>, CryptoError> {
    match r {
        Ok(s) => Ok(s@),
        Err(e) => Err(e),
    }
}

/// Derives the 32-byte cipher key from user key material.
fn derive_key(user_key: &[u8]) -> (key: Vec<u8>)
    ensures
        key@ == spec_derive_key(user_key@),
        key@.len() == KEY_LEN,
{
    if user_key.len() == KEY_LEN {
        vstd::slice::slice_to_vec(user_key)
    } else {
        blake3_hash(user_key)
    }
}

} // verus!

verus! {

use crate::codec::b64_std_decode;

/// Key material decoded from unpadded standard base64: `None` when it decodes
/// to nothing, otherwise the derived 32-byte key.
pub open spec fn spec_parse_key_b64(value: Seq<char>) -> Result<Option<Seq<u8>>, CryptoError> {
    match b64_std_bytes(value) {
        None => Err(CryptoError::InvalidEncoding),
        Some(decoded) => if decoded.len() == 0 {
            Ok(None)
        } else {
            Ok(Some(spec_derive_key(decoded)))
        },
    }
}

/// View of an optional key.
pub open spec fn opt_key(k: Option<Vec<u8>>) -> Option<Seq<u8>> {
    match k {
        Some(v) => Some(v@),
        None => None,
    }
}

/// Parses user key material given as unpadded standard base64.
pub fn parse_key_b64(value: &str) -> (res: Result<Option<Vec<u8>>, CryptoError>)
    ensures
        match res {
            Ok(k) => spec_parse_key_b64(value@) == Ok::<Option<Seq<u8>>, CryptoError>(opt_key(k)),
            Err(e) => spec_parse_key_b64(value@) == Err::<Option<Seq<u8>>, CryptoError>(e),
        },
        res matches Ok(Some(k)) ==> k@.len() == KEY_LEN,
{
    let decoded = match b64_std_decode(value) {
        Some(d) => d,
        None => return Err(CryptoError::InvalidEncoding),
    };
    if decoded.len() == 0 {
        return Ok(None);
    }
    Ok(Some(derive_key(decoded.as_slice())))
}

/// An engine key read from a setting decrypts exactly as the key material the
/// setting encodes: an engine built with `from_env` agrees with
/// `decrypt_field_with_key` on that material.
pub proof fn law_setting_key_decrypts_as_material(value: Seq<char>, text: Seq<char>)
    requires
        spec_parse_key_b64(value) matches Ok(Some(k)) && k.len() == KEY_LEN,
    ensures
        b64_std_bytes(value) matches Some(material) && spec_decrypt_field(text, spec_parse_key_b64(value)->Ok_0->0)
            == spec_decrypt_field(text, material),
{
}

/// Encryption engine holding the node's field key, if one was configured.
pub struct CryptoEngine {
    user_key: Option<Vec<u8>>,
}

impl CryptoEngine {
    /// The key held by the engine.
    pub closed spec fn key(&self) -> Option<Seq<u8>> {
        opt_key(self.user_key)
    }

    /// A key held by the engine is a derived 32-byte cipher key.
    #[verifier::type_invariant]
    spec fn key_is_derived(self) -> bool {
        self.user_key matches Some(k) ==> k@.len() == KEY_LEN
    }

    /// Builds the engine from the value of the key setting (unpadded standard
    /// base64); an absent or empty value gives an engine without a key.
    pub fn from_env(value: Option<&str>) -> (res: Result<Self, CryptoError>)
        ensures
            match value {
                None => res matches Ok(e) && e.key() is None,
                Some(v) => if v@.len() == 0 {
                    res matches Ok(e) && e.key() is None
                } else {
                    match spec_parse_key_b64(v@) {
                        Ok(k) => res matches Ok(e) && e.key() == k,
                        Err(err) => res == Err::<Self, CryptoError>(err),
                    }
                },
            },
            res matches Ok(e) ==> (e.key() matches Some(k) ==> k.len() == KEY_LEN),
    {
        match value {
            None => Ok(CryptoEngine { user_key: None }),
            Some(v) => {
                if v.is_empty() {
                    return Ok(CryptoEngine { user_key: None });
                }
                let key = parse_key_b64(v)?;
                Ok(CryptoEngine { user_key: key })
            },
        }
    }

    pub fn has_user_key(&self) -> (res: bool)
        ensures
            res == self.key() is Some,
            self.key() matches Some(k) ==> k.len() == KEY_LEN,
    {
        proof {
            use_type_invariant(self);
        }
        self.user_key.is_some()
    }

    /// Encrypts a field under the engine's key: without a key it fails with
    /// `KeyUnavailable`; with one, the outcome is a possible encryption.
    pub fn encrypt_field(&self, plaintext: &str) -> (res: Result<String, CryptoError>)
        ensures
            match self.key() {
                None => res == Err::<String, CryptoError>(CryptoError::KeyUnavailable),
                Some(k) => {
                    &&& k.len() == KEY_LEN
                    &&& possible_field_encryption(plaintext@, k, text_result(res))
                },
            },
    {
        proof {
            use_type_invariant(self);
        }
        match &self.user_key {
            None => Err(CryptoError::KeyUnavailable),
            Some(key) => aead::encrypt_field(plaintext, key.as_slice()),
        }
    }

    /// Decrypts a field under the engine's key.
    pub fn decrypt_field(&self, ciphertext_with_nonce: &str) -> (res: Result<String, CryptoError>)
        ensures
            match self.key() {
                None => res == Err::<String, CryptoError>(CryptoError::KeyUnavailable),
                Some(k) => {
                    &&& text_result(res) == spec_decrypt_field(ciphertext_with_nonce@, k)
                    &&& !(res matches Err(CryptoError::InvalidKey))
                    &&& !(res matches Err(CryptoError::KeyUnavailable))
                    &&& !(res matches Err(CryptoError::EncryptFailed))
                },
            },
    {
        proof {
            use_type_invariant(self);
        }
        match &self.user_key {
            None => Err(CryptoError::KeyUnavailable),
            Some(key) => aead::decrypt_field(ciphertext_with_nonce, key.as_slice()),
        }
    }

    /// Encrypts a field under the given key material (of any length).
    pub fn encrypt_field_with_key(plaintext: &str, user_key: &[u8]) -> (res: Result<String, CryptoError>)
        ensures
            possible_field_encryption(plaintext@, user_key@, text_result(res)),
    {
        aead::encrypt_field(plaintext, user_key)
    }

    /// Decrypts a field under the given key material (of any length).
    pub fn decrypt_field_with_key(ciphertext_with_nonce: &str, user_key: &[u8]) -> (res: Result<String, CryptoError>)
        ensures
            text_result(res) == spec_decrypt_field(ciphertext_with_nonce@, user_key@),
            !(res matches Err(CryptoError::InvalidKey)),
            !(res matches Err(CryptoError::KeyUnavailable)),
            !(res matches Err(CryptoError::EncryptFailed)),
    {
        aead::decrypt_field(ciphertext_with_nonce, user_key)
    }
}

impl Default for CryptoEngine {
    fn default() -> (res: Self)
        ensures
            res.key() is None,
    {
        CryptoEngine { user_key: None }
    }
}

} // verus!
