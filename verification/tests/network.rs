use base64::Engine;
use ed25519_dalek::SigningKey;

use neqst_core::json::JsonValue;
use neqst_core::network::{
    decode_paseto_v4_public, forensic_event, is_loopback, new_token_nonce, pae, parse_ed25519_pubkey_b64,
    parse_ed25519_signing_key_b64, rejection_data, sign_paseto_v4_public, verify_paseto_v4_public, ClientMode,
    GuardError, IpAddress, KeyParseError, PasetoClaims, PasetoError, RemoteClientGuard,
};

fn url(bytes: &[u8]) -> String {
    base64::engine::general_purpose::URL_SAFE_NO_PAD.encode(bytes)
}

fn claims(exp: u64, iat: u64, aud: &str) -> PasetoClaims {
    PasetoClaims { exp, iat, aud: aud.to_string(), nonce: "n".to_string() }
}

fn keypair() -> (Vec<u8>, Vec<u8>) {
    let sk = SigningKey::from_bytes(&[11u8; 32]);
    (sk.to_bytes().to_vec(), sk.verifying_key().to_bytes().to_vec())
}

fn text(s: &str) -> JsonValue {
    JsonValue::String(s.to_string())
}

fn obj(members: Vec<(&str, JsonValue)>) -> JsonValue {
    JsonValue::Object(members.into_iter().map(|(k, v)| (k.to_string(), v)).collect())
}

#[test]
fn loopback_addresses() {
    assert!(is_loopback(&IpAddress::V4([127, 0, 0, 1])));
    assert!(is_loopback(&IpAddress::V4([127, 9, 9, 9])));
    assert!(!is_loopback(&IpAddress::V4([10, 0, 0, 2])));
    let mut v6 = [0u8; 16];
    v6[15] = 1;
    assert!(is_loopback(&IpAddress::V6(v6)));
    v6[0] = 0xfe;
    assert!(!is_loopback(&IpAddress::V6(v6)));
}

#[test]
fn pre_authentication_encoding() {
    assert_eq!(pae(&vec![]), vec![0u8; 8]);
    let out = pae(&vec![b"test".to_vec()]);
    let mut expected = vec![1u8, 0, 0, 0, 0, 0, 0, 0, 4, 0, 0, 0, 0, 0, 0, 0];
    expected.extend_from_slice(b"test");
    assert_eq!(out, expected);
}

#[test]
fn signed_token_has_the_v4_public_shape() {
    let (sk, _) = keypair();
    let token = sign_paseto_v4_public(b"{\"a\":1}", &sk);
    assert!(token.starts_with("v4.public."));
    let parts: Vec<&str> = token["v4.public.".len()..].split('.').collect();
    assert_eq!(parts.len(), 2);
    assert_eq!(parts[0], url(b"{\"a\":1}"));
    let (payload, sig) = decode_paseto_v4_public(&token).unwrap();
    assert_eq!(payload, b"{\"a\":1}".to_vec());
    assert_eq!(sig.len(), 64);
}

#[test]
fn signed_token_verifies() {
    let (sk, pk) = keypair();
    let token = sign_paseto_v4_public(b"{\"aud\":\"neqst-remote\"}", &sk);
    let c = claims(2000, 1000, "neqst-remote");
    assert_eq!(verify_paseto_v4_public(&token, Some(&c), &pk, 1500), Ok(()));
}

#[test]
fn token_refusals() {
    let (sk, pk) = keypair();
    let token = sign_paseto_v4_public(b"payload", &sk);
    let good = claims(2000, 1000, "neqst-remote");
    assert_eq!(verify_paseto_v4_public("v3.local.x.y", Some(&good), &pk, 1500), Err(PasetoError::InvalidPrefix));
    assert_eq!(verify_paseto_v4_public("v4.public.abc", Some(&good), &pk, 1500), Err(PasetoError::InvalidSig));
    assert_eq!(
        verify_paseto_v4_public(&format!("{}.footer", token), Some(&good), &pk, 1500),
        Err(PasetoError::FooterNotSupported)
    );
    assert_eq!(verify_paseto_v4_public("v4.public.@@.AAAA", Some(&good), &pk, 1500), Err(PasetoError::PayloadB64DecodeFailed));
    assert_eq!(verify_paseto_v4_public("v4.public.AAAA.@@", Some(&good), &pk, 1500), Err(PasetoError::SigB64DecodeFailed));
    assert_eq!(verify_paseto_v4_public(&token, None, &pk, 1500), Err(PasetoError::PayloadJsonInvalid));
    assert_eq!(verify_paseto_v4_public(&token, Some(&claims(2000, 1000, "other")), &pk, 1500), Err(PasetoError::AudMismatch));
    assert_eq!(verify_paseto_v4_public(&token, Some(&good), &pk, 2000), Err(PasetoError::TokenExpired));
    assert_eq!(verify_paseto_v4_public(&token, Some(&claims(3000, 1531, "neqst-remote")), &pk, 1500), Err(PasetoError::IatInFuture));
    assert_eq!(verify_paseto_v4_public(&token, Some(&claims(3330, 1530, "neqst-remote")), &pk, 1500), Ok(()));
    assert_eq!(verify_paseto_v4_public(&token, Some(&claims(3331, 1530, "neqst-remote")), &pk, 1500), Err(PasetoError::LifetimeTooLong));
    assert_eq!(verify_paseto_v4_public(&token, Some(&claims(5000, 1000, "neqst-remote")), &pk, 1500), Err(PasetoError::LifetimeTooLong));
    assert_eq!(PasetoError::LifetimeTooLong.code(), "token_lifetime_exceeded");
    let short_sig = format!("v4.public.{}.{}", url(b"payload"), url(&[1u8; 10]));
    assert_eq!(verify_paseto_v4_public(&short_sig, Some(&good), &pk, 1500), Err(PasetoError::SigInvalid));
    let (other_sk, _) = (SigningKey::from_bytes(&[12u8; 32]).to_bytes().to_vec(), 0);
    let forged = sign_paseto_v4_public(b"payload", &other_sk);
    assert_eq!(verify_paseto_v4_public(&forged, Some(&good), &pk, 1500), Err(PasetoError::SignatureVerifyFailed));
    assert_eq!(PasetoError::SignatureVerifyFailed.code(), "signature_verify_failed");
}

#[test]
fn public_key_settings() {
    let (_, pk) = keypair();
    assert_eq!(parse_ed25519_pubkey_b64(&url(&pk)), Ok(pk.clone()));
    let std = base64::engine::general_purpose::STANDARD_NO_PAD.encode(&pk);
    assert_eq!(parse_ed25519_pubkey_b64(&std), Ok(pk.clone()));
    assert_eq!(parse_ed25519_pubkey_b64(&format!(" {}", std)), Err(KeyParseError::DecodeFailed));
    assert_eq!(parse_ed25519_pubkey_b64("@@@"), Err(KeyParseError::DecodeFailed));
    assert_eq!(parse_ed25519_pubkey_b64(&url(&[1u8; 31])), Err(KeyParseError::WrongLength));
}

#[test]
fn signing_key_settings() {
    let (sk, _) = keypair();
    assert_eq!(parse_ed25519_signing_key_b64(&url(&sk)), Some(sk.clone()));
    assert_eq!(parse_ed25519_signing_key_b64("   "), None);
    assert_eq!(parse_ed25519_signing_key_b64(&url(&[1u8; 16])), None);
}

#[test]
fn token_nonce_is_22_url_safe_characters() {
    let a = new_token_nonce().unwrap();
    let b = new_token_nonce().unwrap();
    assert_eq!(a.len(), 22);
    assert!(a.chars().all(|c| c.is_ascii_alphanumeric() || c == '-' || c == '_'));
    assert_ne!(a, b);
}

#[test]
fn guard_admits_loopback_and_refuses_remote_without_token() {
    let guard = RemoteClientGuard::from_env(None, None, None);
    assert_eq!(guard.forensic_dir(), "../ForensicData");
    let local = guard.authorize_ws(&IpAddress::V4([127, 0, 0, 1]), None, None, None, 100);
    assert_eq!(local, Ok(ClientMode::Local));
    let remote = guard.authorize_ws(&IpAddress::V4([10, 0, 0, 2]), None, None, None, 100);
    assert_eq!(remote, Err((GuardError::MissingToken, None)));
    assert_eq!(GuardError::MissingToken.forensic_kind(), "remote_auth_missing_token");
}

#[test]
fn guard_checks_configured_token_then_key_then_signature() {
    let (sk, pk) = keypair();
    let token = sign_paseto_v4_public(b"{}", &sk);
    let c = claims(2000, 1000, "neqst-remote");
    let peer = IpAddress::V4([192, 168, 1, 5]);

    let no_key = RemoteClientGuard::from_env(None, None, Some(""));
    assert_eq!(no_key.forensic_dir(), "../ForensicData");
    assert_eq!(no_key.authorize_ws(&peer, Some(&token), None, Some(&c), 1500), Err((GuardError::KeyUnavailable, None)));

    let with_key = RemoteClientGuard::from_env(Some(&token), Some(&url(&pk)), Some("/tmp/forensics"));
    assert_eq!(with_key.forensic_dir(), "/tmp/forensics");
    assert_eq!(with_key.authorize_ws(&peer, Some("other"), None, Some(&c), 1500), Err((GuardError::TokenMismatch, None)));
    assert_eq!(with_key.authorize_ws(&peer, None, Some(&token), Some(&c), 1500), Ok(ClientMode::Remote));
    assert_eq!(
        with_key.authorize_ws(&peer, Some(&token), None, Some(&c), 2500),
        Err((GuardError::InvalidSignature, Some(PasetoError::TokenExpired)))
    );
}

#[test]
fn forensic_records() {
    let data = rejection_data(&(GuardError::InvalidSignature, Some(PasetoError::TokenExpired)));
    assert_eq!(data, obj(vec![("reason", text("signature_invalid")), ("detail", text("token_expired"))]));
    let missing = rejection_data(&(GuardError::MissingToken, None));
    assert_eq!(missing, obj(vec![("reason", text("missing_token"))]));
    let event = forensic_event(42, "remote_auth_missing_token", Some("10.0.0.2:50000"), missing);
    assert_eq!(
        event,
        obj(vec![
            ("ts_unix", JsonValue::Number(neqst_core::json::JsonNumber::PosInt(42))),
            ("kind", text("remote_auth_missing_token")),
            ("peer", text("10.0.0.2:50000")),
            ("data", obj(vec![("reason", text("missing_token"))])),
        ])
    );
}

#[test]
fn public_keys_must_be_curve_points() {
    let invalid = (0u8..=255)
        .map(|b| [b; 32])
        .find(|k| ed25519_dalek::VerifyingKey::from_bytes(k).is_err())
        .unwrap();
    assert_eq!(parse_ed25519_pubkey_b64(&url(&invalid)), Err(KeyParseError::Invalid));
    let guard = RemoteClientGuard::from_env(None, Some(&url(&invalid)), None);
    let (sk, _) = keypair();
    let token = sign_paseto_v4_public(b"{}", &sk);
    let c = claims(2000, 1000, "neqst-remote");
    assert_eq!(
        guard.authorize_ws(&IpAddress::V4([8, 8, 8, 8]), Some(&token), None, Some(&c), 1500),
        Err((GuardError::KeyUnavailable, None))
    );
}

#[test]
fn clock_reads_seconds_since_the_epoch() {
    let now = neqst_core::network::unix_now();
    assert!(now > 1_600_000_000);
}
