//! Authenticated encryption of text fields.

use vstd::prelude::*;

use crate::codec::{b64_len_fits, b64_std_bytes, b64_std_decode, b64_std_encode, string_from_utf8};
use crate::crypto::primitives::{chacha20poly1305_decrypt, chacha20poly1305_encrypt, os_random_bytes};
use crate::crypto::{derive_key, encryptable, frames, lemma_b64_len_at_least, lemma_encode_utf8_at_least,
    possible_field_encryption, spec_decrypt_field, spec_derive_key, spec_encrypt_field, text_result, CryptoError,
    KEY_LEN, NONCE_LEN};
use vstd::utf8::{encode_utf8_decode_utf8, encode_utf8_valid_utf8};

verus! {

/// Encrypts `plaintext` under `user_key` with the given 12-byte nonce. Any key
/// material works (it is stretched to 32 bytes); the encryption succeeds
/// exactly when the plaintext can be sealed, and its text frames the nonce and
/// the sealed bytes, differs from the plaintext and decrypts back to it.
pub fn encrypt_field_with_nonce(plaintext: &str, user_key: &[u8], nonce: &[u8]) -> (res: Result<String, CryptoError>)
    requires
        nonce@.len() == NONCE_LEN,
    ensures
        text_result(res) == spec_encrypt_field(plaintext@, user_key@, nonce@),
        spec_derive_key(user_key@).len() == KEY_LEN,
        res is Ok <==> encryptable(plaintext@),
        res is Err ==> res == Err::<String, CryptoError>(CryptoError::EncryptFailed),
        res matches Ok(text) ==> {
            &&& frames(text@, plaintext@, nonce@)
            &&& text@ != plaintext@
            &&& spec_decrypt_field(text@, user_key@) == Ok::<Seq<char>, CryptoError>(plaintext@)
        },
{
    let key = derive_key(user_key);
    if key.len() != KEY_LEN {
        return Err(CryptoError::InvalidKey);
    }
    let msg = plaintext.as_bytes();
    let sealed = match chacha20poly1305_encrypt(key.as_slice(), nonce, msg) {
        Some(c) => c,
        None => return Err(CryptoError::EncryptFailed),
    };
    let sealed_len: usize = sealed.len();
    if sealed_len > usize::MAX - NONCE_LEN || !b64_len_fits(NONCE_LEN + sealed_len) {
        proof {
            if sealed_len > usize::MAX - NONCE_LEN {
                lemma_b64_len_at_least((NONCE_LEN + sealed_len) as nat);
            }
        }
        return Err(CryptoError::EncryptFailed);
    }
    let mut out: Vec<u8> = vstd::slice::slice_to_vec(nonce);
    let mut tail = sealed;
    out.append(&mut tail);
    let text = b64_std_encode(out.as_slice());
    proof {
        let framed = out@;
        assert(framed.subrange(0, NONCE_LEN as int) =~= nonce@);
        assert(framed.subrange(NONCE_LEN as int, framed.len() as int) =~= sealed@);
        assert(b64_std_bytes(text@) == Some(framed));
        encode_utf8_valid_utf8(plaintext@);
        encode_utf8_decode_utf8(plaintext@);
        lemma_encode_utf8_at_least(plaintext@);
        lemma_b64_len_at_least(framed.len() as nat);
        assert(text@.len() > plaintext@.len());
    }
    Ok(text)
}

/// Encrypts `plaintext` under `user_key` with a fresh random nonce; fails with
/// `EncryptFailed` when the plaintext cannot be sealed or the random source fails.
pub fn encrypt_field(plaintext: &str, user_key: &[u8]) -> (res: Result<String, CryptoError>)
    ensures
        possible_field_encryption(plaintext@, user_key@, text_result(res)),
        spec_derive_key(user_key@).len() == KEY_LEN,
{
    let nonce = match os_random_bytes(NONCE_LEN) {
        Some(n) => n,
        None => {
            let _ = derive_key_len(user_key);
            return Err(CryptoError::EncryptFailed);
        },
    };
    let r = encrypt_field_with_nonce(plaintext, user_key, nonce.as_slice());
    proof {
        if r is Ok {
            assert(spec_encrypt_field(plaintext@, user_key@, nonce@) == text_result(r));
        }
    }
    r
}

/// The derived key has 32 bytes.
fn derive_key_len(user_key: &[u8]) -> (n: usize)
    ensures
        spec_derive_key(user_key@).len() == KEY_LEN,
        n == KEY_LEN,
{
    let k = derive_key(user_key);
    k.len()
}

/// Decrypts a field produced by `encrypt_field` under `user_key`. Any key
/// material works: the refusals are a text that is not base64, too short a
/// text, a failed authentication, and a plaintext that is not UTF-8.
pub fn decrypt_field(ciphertext_with_nonce: &str, user_key: &[u8]) -> (res: Result<String, CryptoError>)
    ensures
        text_result(res) == spec_decrypt_field(ciphertext_with_nonce@, user_key@),
        spec_derive_key(user_key@).len() == KEY_LEN,
        !(res matches Err(CryptoError::InvalidKey)),
        !(res matches Err(CryptoError::KeyUnavailable)),
        !(res matches Err(CryptoError::EncryptFailed)),
{
    let key = derive_key(user_key);
    if key.len() != KEY_LEN {
        return Err(CryptoError::InvalidKey);
    }
    let decoded = match b64_std_decode(ciphertext_with_nonce) {
        Some(d) => d,
        None => return Err(CryptoError::InvalidEncoding),
    };
    if decoded.len() < NONCE_LEN + 1 {
        return Err(CryptoError::InvalidCiphertext);
    }
    let nonce = vstd::slice::slice_subrange(decoded.as_slice(), 0, NONCE_LEN);
    let sealed = vstd::slice::slice_subrange(decoded.as_slice(), NONCE_LEN, decoded.len());
    let msg = match chacha20poly1305_decrypt(key.as_slice(), nonce, sealed) {
        Some(m) => m,
        None => return Err(CryptoError::DecryptFailed),
    };
    match string_from_utf8(msg) {
        Some(s) => Ok(s),
        None => Err(CryptoError::InvalidPlaintext),
    }
}

} // verus!
