use base64::Engine;
use chacha20poly1305::aead::{Aead, KeyInit};
use chacha20poly1305::{ChaCha20Poly1305, Key, Nonce};

use neqst_core::crypto::aead::{decrypt_field, encrypt_field, encrypt_field_with_nonce};
use neqst_core::crypto::{parse_key_b64, CryptoEngine, CryptoError};

const KEY7_B64: &str = "BwcHBwcHBwcHBwcHBwcHBwcHBwcHBwcHBwcHBwcHBwc";

fn b64(bytes: &[u8]) -> String {
    base64::engine::general_purpose::STANDARD_NO_PAD.encode(bytes)
}

#[test]
fn crypto_roundtrip_with_fixed_key() {
    let key = [7u8; 32];
    let plaintext = "hello neqst crypto";
    let ciphertext = CryptoEngine::encrypt_field_with_key(plaintext, &key).unwrap();
    assert_ne!(ciphertext, plaintext);
    let decrypted = CryptoEngine::decrypt_field_with_key(&ciphertext, &key).unwrap();
    assert_eq!(decrypted, plaintext);
}

#[test]
fn encryption_with_known_nonce_matches_the_cipher() {
    let key = [7u8; 32];
    let nonce = [3u8; 12];
    let text = encrypt_field_with_nonce("abc", &key, &nonce).unwrap();
    let sealed = ChaCha20Poly1305::new(Key::from_slice(&key))
        .encrypt(Nonce::from_slice(&nonce), "abc".as_bytes())
        .unwrap();
    let mut framed = nonce.to_vec();
    framed.extend_from_slice(&sealed);
    assert_eq!(text, b64(&framed));
    assert_eq!(decrypt_field(&text, &key).unwrap(), "abc");
}

#[test]
fn short_keys_are_stretched_with_blake3() {
    let material = b"short key";
    let derived = blake3::hash(material);
    let nonce = [9u8; 12];
    let a = encrypt_field_with_nonce("field", material, &nonce).unwrap();
    let b = encrypt_field_with_nonce("field", derived.as_bytes(), &nonce).unwrap();
    assert_eq!(a, b);
}

#[test]
fn fresh_nonces_differ_but_both_decrypt() {
    let key = [1u8; 32];
    let a = encrypt_field("same", &key).unwrap();
    let b = encrypt_field("same", &key).unwrap();
    assert_ne!(a, b);
    assert_eq!(decrypt_field(&a, &key).unwrap(), "same");
    assert_eq!(decrypt_field(&b, &key).unwrap(), "same");
}

#[test]
fn decrypt_rejects_bad_base64() {
    assert_eq!(decrypt_field("not base64 !!", &[7u8; 32]), Err(CryptoError::InvalidEncoding));
}

#[test]
fn decrypt_rejects_too_short_input() {
    let text = b64(&[0u8; 12]);
    assert_eq!(decrypt_field(&text, &[7u8; 32]), Err(CryptoError::InvalidCiphertext));
}

#[test]
fn decrypt_rejects_tampered_ciphertext() {
    let key = [7u8; 32];
    let text = encrypt_field_with_nonce("secret", &key, &[5u8; 12]).unwrap();
    let mut raw = base64::engine::general_purpose::STANDARD_NO_PAD.decode(&text).unwrap();
    let last = raw.len() - 1;
    raw[last] ^= 1;
    assert_eq!(decrypt_field(&b64(&raw), &key), Err(CryptoError::DecryptFailed));
}

#[test]
fn decrypt_rejects_wrong_key() {
    let text = encrypt_field("secret", &[7u8; 32]).unwrap();
    assert_eq!(decrypt_field(&text, &[8u8; 32]), Err(CryptoError::DecryptFailed));
}

#[test]
fn decrypt_rejects_non_utf8_plaintext() {
    let key = [7u8; 32];
    let nonce = [2u8; 12];
    let sealed = ChaCha20Poly1305::new(Key::from_slice(&key))
        .encrypt(Nonce::from_slice(&nonce), &[0xffu8, 0xfe][..])
        .unwrap();
    let mut framed = nonce.to_vec();
    framed.extend_from_slice(&sealed);
    assert_eq!(decrypt_field(&b64(&framed), &key), Err(CryptoError::InvalidPlaintext));
}

#[test]
fn engine_without_key_refuses_both_ways() {
    let engine = CryptoEngine::default();
    assert!(!engine.has_user_key());
    assert_eq!(engine.encrypt_field("x"), Err(CryptoError::KeyUnavailable));
    assert_eq!(engine.decrypt_field("x"), Err(CryptoError::KeyUnavailable));
}

#[test]
fn engine_from_settings() {
    assert!(!CryptoEngine::from_env(None).unwrap().has_user_key());
    assert!(!CryptoEngine::from_env(Some("")).unwrap().has_user_key());
    assert!(matches!(CryptoEngine::from_env(Some("*not-base64*")), Err(CryptoError::InvalidEncoding)));
    let engine = CryptoEngine::from_env(Some(KEY7_B64)).unwrap();
    assert!(engine.has_user_key());
    let text = engine.encrypt_field("mail body").unwrap();
    assert_eq!(engine.decrypt_field(&text).unwrap(), "mail body");
    assert_eq!(CryptoEngine::decrypt_field_with_key(&text, &[7u8; 32]).unwrap(), "mail body");
}

#[test]
fn key_setting_parsing() {
    assert_eq!(parse_key_b64(""), Ok(None));
    assert_eq!(parse_key_b64(KEY7_B64), Ok(Some(vec![7u8; 32])));
    let short = b64(b"abc");
    assert_eq!(parse_key_b64(&short), Ok(Some(blake3::hash(b"abc").as_bytes().to_vec())));
    assert_eq!(parse_key_b64("@@"), Err(CryptoError::InvalidEncoding));
}

#[test]
fn any_key_material_encrypts_with_a_framed_nonce() {
    for material in [&b""[..], &b"k"[..], &[7u8; 32][..], &[1u8; 40][..]] {
        let text = encrypt_field("mail body", material).unwrap();
        let raw = b64_decode(&text);
        assert_eq!(raw.len(), "mail body".len() + 28);
        assert_eq!(decrypt_field(&text, material).unwrap(), "mail body");
        assert_ne!(text, "mail body");
    }
    let fixed = encrypt_field_with_nonce("", &[2u8; 5], &[4u8; 12]).unwrap();
    let raw = b64_decode(&fixed);
    assert_eq!(raw.len(), 28);
    assert_eq!(&raw[..12], &[4u8; 12]);
}

fn b64_decode(text: &str) -> Vec<u8> {
    base64::engine::general_purpose::STANDARD_NO_PAD.decode(text).unwrap()
}
