//! Remote-client admission: loopback peers are local; other peers must
//! present the configured token, which must also be a valid PASETO v4.public
//! token signed by the master key.

use vstd::prelude::*;
use vstd::bytes::{spec_u64_to_le_bytes, u64_to_le_bytes};

use crate::codec::{b64_nopad_len, b64_std_bytes, b64_std_decode, b64_url_bytes,
    b64_url_decode, b64_url_encode, b64_url_text, opt_bytes, url_safe_b64_char};
use crate::crypto::primitives::{ed25519_point_valid, ed25519_public_key_valid, ed25519_sign,
    ed25519_signature, ed25519_verify, ed25519_verify_strict, os_random_bytes};
use crate::text::{chars_of, string_of, trim, trim_ws};

verus! {

#[derive(Clone, Copy, Debug, PartialEq, Eq, Structural)]
pub enum ClientMode {
    Local,
    Remote,
}

/// A connected remote peer.
#[derive(Clone, Debug)]
pub struct PeerInfo {
    pub addr: String,
    pub mode: ClientMode,
    pub connected_at_unix: u64,
}

#[derive(Clone, Copy, Debug, PartialEq, Eq, Structural)]
pub enum GuardError {
    MissingToken,
    TokenMismatch,
    KeyUnavailable,
    InvalidSignature,
}

/// An IP address by its octets.
#[derive(Clone, Copy, Debug, PartialEq, Eq)]
pub enum IpAddress {
    V4([u8; 4]),
    V6([u8; 16]),
}

/// `IpAddr::is_loopback`: 127.0.0.0/8 for IPv4, `::1` for IPv6.
pub open spec fn spec_is_loopback(ip: IpAddress) -> bool {
    match ip {
        IpAddress::V4(o) => o@[0] == 127,
        IpAddress::V6(o) => (forall|i: int| 0 <= i < 15 ==> o@[i] == 0) && o@[15] == 1,
    }
}

pub fn is_loopback(ip: &IpAddress) -> (r: bool)
    ensures
        r == spec_is_loopback(*ip),
{
    match ip {
        IpAddress::V4(o) => o[0] == 127,
        IpAddress::V6(o) => {
            let mut i: usize = 0;
            while i < 15
                invariant
                    i <= 15,
                    o@.len() == 16,
                    *ip == IpAddress::V6(*o),
                    forall|j: int| 0 <= j < i ==> o@[j] == 0,
                decreases 15 - i,
            {
                let b: u8 = o[i];
                if b != 0 {
                    assert(o@[i as int] != 0);
                    assert(!(forall|j: int| 0 <= j < 15 ==> o@[j] == 0));
                    return false;
                }
                i = i + 1;
            }
            o[15] == 1
        },
    }
}

/// The bytes of PASETO pre-authentication encoding after the piece count.
pub open spec fn pae_pieces(pieces: Seq<Seq<u8>>) -> Seq<u8>
    decreases pieces.len(),
{
    if pieces.len() == 0 {
        Seq::empty()
    } else {
        pae_pieces(pieces.drop_last()) + spec_u64_to_le_bytes(pieces.last().len() as u64) + pieces.last()
    }
}

/// PASETO pre-authentication encoding: the little-endian 64-bit piece count,
/// then each piece preceded by its little-endian 64-bit length.
pub open spec fn spec_pae(pieces: Seq<Seq<u8>>) -> Seq<u8> {
    spec_u64_to_le_bytes(pieces.len() as u64) + pae_pieces(pieces)
}

/// View of a list of byte vectors.
pub open spec fn byte_pieces(pieces: Seq<Vec<u8>>) -> Seq<Seq<u8>> {
    pieces.map_values(|p: Vec<u8>| p@)
}

/// PASETO pre-authentication encoding of the pieces.
pub fn pae(pieces: &Vec<Vec<u8>>) -> (out: Vec<u8>)
    ensures
        out@ == spec_pae(byte_pieces(pieces@)),
{
    let n: usize = pieces.len();
    let mut out = u64_to_le_bytes(n as u64);
    let mut i: usize = 0;
    while i < n
        invariant
            n == pieces@.len(),
            i <= n,
            out@ == spec_u64_to_le_bytes(n as u64) + pae_pieces(byte_pieces(pieces@.subrange(0, i as int))),
        decreases n - i,
    {
        let p = &pieces[i];
        let mut len_bytes = u64_to_le_bytes(p.len() as u64);
        out.append(&mut len_bytes);
        let mut body = p.clone();
        out.append(&mut body);
        proof {
            let pre = byte_pieces(pieces@.subrange(0, i as int));
            let post = byte_pieces(pieces@.subrange(0, i + 1));
            assert(post.drop_last() =~= pre);
            assert(post.last() == pieces@[i as int]@);
            assert(out@ =~= spec_u64_to_le_bytes(n as u64) + pae_pieces(post));
        }
        i = i + 1;
    }
    assert(pieces@.subrange(0, n as int) =~= pieces@);
    out
}

/// The length of the encoding of the pieces: eight bytes for the count, and
/// for every piece, empty ones included, eight bytes for its length and its bytes.
pub open spec fn pae_encoded_len(pieces: Seq<Seq<u8>>) -> int
    decreases pieces.len(),
{
    if pieces.len() == 0 {
        8
    } else {
        pae_encoded_len(pieces.drop_last()) + 8 + pieces.last().len()
    }
}

/// The pieces before piece `k` are encoded first.
proof fn lemma_pae_prefix(pieces: Seq<Seq<u8>>, j: int)
    requires
        0 <= j <= pieces.len(),
    ensures
        pae_pieces(pieces).len() == pae_encoded_len(pieces) - 8,
        pae_pieces(pieces.take(j)).len() <= pae_pieces(pieces).len(),
        pae_pieces(pieces).subrange(0, pae_pieces(pieces.take(j)).len() as int) == pae_pieces(pieces.take(j)),
    decreases pieces.len(),
{
    vstd::bytes::lemma_auto_spec_u64_to_from_le_bytes();
    if pieces.len() == 0 {
        assert(pieces.take(j) =~= pieces);
    } else if j == pieces.len() {
        assert(pieces.take(j) =~= pieces);
        lemma_pae_prefix(pieces.drop_last(), 0);
        assert(pae_pieces(pieces).subrange(0, pae_pieces(pieces).len() as int) =~= pae_pieces(pieces));
    } else {
        let d = pieces.drop_last();
        assert(pieces.take(j) =~= d.take(j));
        lemma_pae_prefix(d, j);
        let whole = pae_pieces(pieces);
        assert(whole == pae_pieces(d) + spec_u64_to_le_bytes(pieces.last().len() as u64) + pieces.last());
        let m = pae_pieces(d.take(j)).len() as int;
        assert(whole.subrange(0, m) =~= pae_pieces(d).subrange(0, m));
    }
}

/// PASETO pre-authentication encoding, read back: it is `pae_encoded_len`
/// bytes long, starts with the little-endian 64-bit count of the pieces, and
/// every piece `k`, empty ones included, stands at the offset given by the
/// pieces before it, as its little-endian 64-bit length followed by its bytes.
pub proof fn law_pae_layout(pieces: Seq<Seq<u8>>, k: int)
    requires
        0 <= k < pieces.len(),
    ensures
        spec_pae(pieces).len() == pae_encoded_len(pieces),
        spec_pae(pieces).subrange(0, 8) == spec_u64_to_le_bytes(pieces.len() as u64),
        ({
            let off = pae_encoded_len(pieces.take(k));
            &&& spec_pae(pieces).subrange(off, off + 8) == spec_u64_to_le_bytes(pieces[k].len() as u64)
            &&& spec_pae(pieces).subrange(off + 8, off + 8 + pieces[k].len()) == pieces[k]
        }),
{
    vstd::bytes::lemma_auto_spec_u64_to_from_le_bytes();
    lemma_pae_prefix(pieces, k + 1);
    lemma_pae_prefix(pieces.take(k + 1), k);
    let t = pieces.take(k + 1);
    assert(t.drop_last() =~= pieces.take(k));
    assert(t.take(k) =~= pieces.take(k));
    assert(t.last() == pieces[k]);
    let head = spec_u64_to_le_bytes(pieces.len() as u64);
    let body = pae_pieces(pieces);
    let pt = pae_pieces(t);
    let pk = pae_pieces(pieces.take(k));
    let lk = spec_u64_to_le_bytes(pieces[k].len() as u64);
    assert(pt == pk + lk + pieces[k]);
    let off = pae_encoded_len(pieces.take(k));
    assert(pk.len() == off - 8);
    assert(body.subrange(0, pt.len() as int) == pt);
    assert(spec_pae(pieces) == head + body);
    assert(spec_pae(pieces).subrange(0, 8) =~= head);
    assert(spec_pae(pieces).subrange(off, off + 8) =~= pt.subrange(off - 8, off));
    assert(pt.subrange(off - 8, off) =~= lk);
    assert(spec_pae(pieces).subrange(off + 8, off + 8 + pieces[k].len()) =~= pt.subrange(off, off + pieces[k].len()));
    assert(pt.subrange(off, off + pieces[k].len()) =~= pieces[k]);
}

/// The message a v4.public token signs is the standard pre-authentication
/// encoding of the header, the payload, an empty footer and an empty implicit
/// assertion: `LE64(4) || LE64(10) || "v4.public." || LE64(len) || payload ||
/// LE64(0) || LE64(0)`.
pub proof fn law_signed_message_is_standard_pae(payload: Seq<u8>)
    ensures
        paseto_signed_message(payload) == spec_u64_to_le_bytes(4) + spec_u64_to_le_bytes(10) + paseto_header_bytes()
            + spec_u64_to_le_bytes(payload.len() as u64) + payload + spec_u64_to_le_bytes(0) + spec_u64_to_le_bytes(0),
        paseto_signed_message(payload).len() == 8 + 8 + 10 + 8 + payload.len() + 8 + 8,
{
    vstd::bytes::lemma_auto_spec_u64_to_from_le_bytes();
    reveal_with_fuel(pae_pieces, 5);
    let ps = seq![paseto_header_bytes(), payload, Seq::<u8>::empty(), Seq::<u8>::empty()];
    assert(ps.drop_last() =~= seq![paseto_header_bytes(), payload, Seq::<u8>::empty()]);
    assert(ps.drop_last().drop_last() =~= seq![paseto_header_bytes(), payload]);
    assert(ps.drop_last().drop_last().drop_last() =~= seq![paseto_header_bytes()]);
    assert(ps.drop_last().drop_last().drop_last().drop_last() =~= Seq::<Seq<u8>>::empty());
    assert(paseto_header_bytes().len() == 10);
    assert(Seq::<u8>::empty() + spec_u64_to_le_bytes(0) + Seq::<u8>::empty() =~= spec_u64_to_le_bytes(0));
    assert(paseto_signed_message(payload) =~= spec_u64_to_le_bytes(4) + spec_u64_to_le_bytes(10) + paseto_header_bytes()
        + spec_u64_to_le_bytes(payload.len() as u64) + payload + spec_u64_to_le_bytes(0) + spec_u64_to_le_bytes(0));
}

/// The bytes of the PASETO v4.public header `"v4.public."`.
pub open spec fn paseto_header_bytes() -> Seq<u8> {
    seq![118u8, 52, 46, 112, 117, 98, 108, 105, 99, 46]
}

/// The characters of the PASETO v4.public header `"v4.public."`.
pub open spec fn paseto_header_chars() -> Seq<char> {
    seq!['v', '4', '.', 'p', 'u', 'b', 'l', 'i', 'c', '.']
}

/// The signed message of a v4.public token without footer or implicit assertion.
pub open spec fn paseto_signed_message(payload: Seq<u8>) -> Seq<u8> {
    spec_pae(seq![paseto_header_bytes(), payload, Seq::empty(), Seq::empty()])
}

fn header_bytes() -> (h: Vec<u8>)
    ensures
        h@ == paseto_header_bytes(),
{
    let h: Vec<u8> = vec![118u8, 52, 46, 112, 117, 98, 108, 105, 99, 46];
    assert(h@ =~= paseto_header_bytes());
    h
}

fn signed_message(payload: &[u8]) -> (m: Vec<u8>)
    ensures
        m@ == paseto_signed_message(payload@),
{
    let mut pieces: Vec<Vec<u8>> = Vec::new();
    pieces.push(header_bytes());
    pieces.push(vstd::slice::slice_to_vec(payload));
    pieces.push(Vec::new());
    pieces.push(Vec::new());
    let m = pae(&pieces);
    assert(byte_pieces(pieces@) =~= seq![paseto_header_bytes(), payload@, Seq::<u8>::empty(), Seq::<u8>::empty()]);
    m
}

/// The v4.public token text of a payload signed under a secret key.
pub open spec fn spec_paseto_token(payload: Seq<u8>, secret_key: Seq<u8>) -> Seq<char> {
    paseto_header_chars() + b64_url_text(payload) + seq!['.'] + b64_url_text(
        ed25519_signature(secret_key, paseto_signed_message(payload)),
    )
}

/// The first occurrence of a character is where it first stands.
proof fn lemma_lfind_at(x: Seq<char>, c: char, k: int)
    requires
        0 <= k < x.len(),
        x[k] == c,
        forall|i: int| 0 <= i < k ==> x[i] != c,
    ensures
        lfind(x, c) == k,
{
    lemma_lfind(x, c);
}

/// A character that does not occur is not found.
proof fn lemma_lfind_absent(x: Seq<char>, c: char)
    requires
        forall|i: int| 0 <= i < x.len() ==> x[i] != c,
    ensures
        lfind(x, c) == -1,
{
    lemma_lfind(x, c);
}

/// Signs a payload as a PASETO v4.public token: `v4.public.<payload>.<signature>`,
/// both parts in unpadded URL-safe base64. Decoding the token gives back the
/// payload and its signature.
pub fn sign_paseto_v4_public(payload_bytes: &[u8], signing_key: &[u8]) -> (token: String)
    requires
        signing_key@.len() == 32,
        b64_nopad_len(payload_bytes@.len() as nat) <= usize::MAX,
    ensures
        token@ == spec_paseto_token(payload_bytes@, signing_key@),
        spec_paseto_decode(token@) == Ok::<(Seq<u8>, Seq<u8>), PasetoError>(
            (payload_bytes@, ed25519_signature(signing_key@, paseto_signed_message(payload_bytes@))),
        ),
{
    let m = signed_message(payload_bytes);
    let sig = ed25519_sign(signing_key, m.as_slice());
    let mut token = String::from_str("v4.public.");
    proof {
        reveal_strlit("v4.public.");
        assert("v4.public."@ =~= paseto_header_chars());
    }
    let p = b64_url_encode(payload_bytes);
    token.append(p.as_str());
    token.append(".");
    proof {
        reveal_strlit(".");
    }
    let s = b64_url_encode(sig.as_slice());
    token.append(s.as_str());
    assert(token@ =~= spec_paseto_token(payload_bytes@, signing_key@));
    proof {
        let t = token@;
        let rest = t.subrange(10, t.len() as int);
        assert(t.subrange(0, 10) =~= paseto_header_chars());
        assert(rest =~= p@ + seq!['.'] + s@);
        assert forall|i: int| 0 <= i < p@.len() implies rest[i] != '.' by {
            assert(url_safe_b64_char(p@[i]));
            assert(rest[i] == p@[i]);
        }
        lemma_lfind_at(rest, '.', p@.len() as int);
        let after = rest.subrange(p@.len() as int + 1, rest.len() as int);
        assert(after =~= s@);
        assert forall|i: int| 0 <= i < s@.len() implies s@[i] != '.' by {
            assert(url_safe_b64_char(s@[i]));
        }
        lemma_lfind_absent(s@, '.');
        assert(rest.subrange(0, p@.len() as int) =~= p@);
    }
    token
}

} // verus!

verus! {

/// The longest lifetime (`exp - iat`) of an accepted token: 30 minutes.
pub const MAX_TOKEN_LIFETIME_SECS: u64 = 1800;

/// Why a PASETO token was refused.
#[derive(Clone, Copy, Debug, PartialEq, Eq, Structural)]
pub enum PasetoError {
    InvalidPrefix,
    InvalidSig,
    FooterNotSupported,
    PayloadB64DecodeFailed,
    SigB64DecodeFailed,
    PayloadJsonInvalid,
    AudMismatch,
    TokenExpired,
    IatInFuture,
    LifetimeTooLong,
    SigInvalid,
    SignatureVerifyFailed,
}

impl PasetoError {
    /// The code recorded for the refusal.
    pub fn code(&self) -> (c: &'static str)
        ensures
            c@ == spec_paseto_error_code(*self),
    {
        match self {
            PasetoError::InvalidPrefix => "invalid_paseto_prefix",
            PasetoError::InvalidSig => "invalid_sig",
            PasetoError::FooterNotSupported => "footer_not_supported",
            PasetoError::PayloadB64DecodeFailed => "payload_b64_decode_failed",
            PasetoError::SigB64DecodeFailed => "sig_b64_decode_failed",
            PasetoError::PayloadJsonInvalid => "payload_json_invalid",
            PasetoError::AudMismatch => "aud_mismatch",
            PasetoError::TokenExpired => "token_expired",
            PasetoError::IatInFuture => "iat_in_future",
            PasetoError::LifetimeTooLong => "token_lifetime_exceeded",
            PasetoError::SigInvalid => "sig_invalid",
            PasetoError::SignatureVerifyFailed => "signature_verify_failed",
        }
    }
}

pub open spec fn spec_paseto_error_code(e: PasetoError) -> Seq<char> {
    match e {
        PasetoError::InvalidPrefix => "invalid_paseto_prefix"@,
        PasetoError::InvalidSig => "invalid_sig"@,
        PasetoError::FooterNotSupported => "footer_not_supported"@,
        PasetoError::PayloadB64DecodeFailed => "payload_b64_decode_failed"@,
        PasetoError::SigB64DecodeFailed => "sig_b64_decode_failed"@,
        PasetoError::PayloadJsonInvalid => "payload_json_invalid"@,
        PasetoError::AudMismatch => "aud_mismatch"@,
        PasetoError::TokenExpired => "token_expired"@,
        PasetoError::IatInFuture => "iat_in_future"@,
        PasetoError::LifetimeTooLong => "token_lifetime_exceeded"@,
        PasetoError::SigInvalid => "sig_invalid"@,
        PasetoError::SignatureVerifyFailed => "signature_verify_failed"@,
    }
}

/// The claims of a remote-access token.
#[derive(Debug)]
pub struct PasetoClaims {
    pub exp: u64,
    pub iat: u64,
    pub aud: String,
    pub nonce: String,
}

/// Index of the first occurrence of `c`, or -1.
pub open spec fn lfind(s: Seq<char>, c: char) -> int
    decreases s.len(),
{
    if s.len() == 0 {
        -1
    } else if s[0] == c {
        0
    } else if lfind(s.drop_first(), c) < 0 {
        -1
    } else {
        lfind(s.drop_first(), c) + 1
    }
}

proof fn lemma_lfind(s: Seq<char>, c: char)
    ensures
        -1 <= lfind(s, c) < s.len(),
        lfind(s, c) >= 0 ==> s[lfind(s, c)] == c,
        forall|i: int| 0 <= i < s.len() && (lfind(s, c) < 0 || i < lfind(s, c)) ==> s[i] != c,
    decreases s.len(),
{
    if s.len() > 0 && s[0] != c {
        lemma_lfind(s.drop_first(), c);
        assert forall|i: int| 0 <= i < s.len() && (lfind(s, c) < 0 || i < lfind(s, c)) implies s[i] != c by {
            if i > 0 {
                assert(s.drop_first()[i - 1] == s[i]);
            }
        }
    }
}

fn lfind_exec(s: &[char], c: char) -> (k: Option<usize>)
    ensures
        match k {
            Some(j) => lfind(s@, c) == j,
            None => lfind(s@, c) == -1,
        },
{
    let n: usize = s.len();
    let mut i: usize = 0;
    proof {
        lemma_lfind(s@, c);
    }
    while i < n
        invariant
            n == s@.len(),
            i <= n,
            forall|j: int| 0 <= j < i ==> s@[j] != c,
            -1 <= lfind(s@, c) < s@.len(),
            lfind(s@, c) >= 0 ==> s@[lfind(s@, c)] == c,
            forall|j: int| 0 <= j < s@.len() && (lfind(s@, c) < 0 || j < lfind(s@, c)) ==> s@[j] != c,
        decreases n - i,
    {
        if s[i] == c {
            return Some(i);
        }
        i = i + 1;
    }
    None
}

/// The payload and signature texts of a v4.public token.
pub open spec fn spec_paseto_parts(token: Seq<char>) -> Result<(Seq<char>, Seq<char>), PasetoError> {
    if token.len() < 10 || token.subrange(0, 10) != paseto_header_chars() {
        Err(PasetoError::InvalidPrefix)
    } else {
        let rest = token.subrange(10, token.len() as int);
        let i = lfind(rest, '.');
        if i < 0 {
            Err(PasetoError::InvalidSig)
        } else {
            let after = rest.subrange(i + 1, rest.len() as int);
            if lfind(after, '.') >= 0 {
                Err(PasetoError::FooterNotSupported)
            } else {
                Ok((rest.subrange(0, i), after))
            }
        }
    }
}

/// The decoded payload and signature bytes of a v4.public token.
pub open spec fn spec_paseto_decode(token: Seq<char>) -> Result<(Seq<u8>, Seq<u8>), PasetoError> {
    match spec_paseto_parts(token) {
        Err(e) => Err(e),
        Ok((p, s)) => match b64_url_bytes(p) {
            None => Err(PasetoError::PayloadB64DecodeFailed),
            Some(payload) => match b64_url_bytes(s) {
                None => Err(PasetoError::SigB64DecodeFailed),
                Some(sig) => Ok((payload, sig)),
            },
        },
    }
}

/// Result view of decoded token bytes.
pub open spec fn decoded_view(r: Result<(Vec<u8>, Vec<u8>), PasetoError>) -> Result<(Seq<u8>, Seq<u8>), PasetoError> {
    match r {
        Ok((p, s)) => Ok((p@, s@)),
        Err(e) => Err(e),
    }
}

fn header_chars() -> (h: Vec<char>)
    ensures
        h@ == paseto_header_chars(),
{
    let h: Vec<char> = vec!['v', '4', '.', 'p', 'u', 'b', 'l', 'i', 'c', '.'];
    assert(h@ =~= paseto_header_chars());
    h
}

/// Splits a v4.public token and decodes its payload and signature.
pub fn decode_paseto_v4_public(token: &str) -> (r: Result<(Vec<u8>, Vec<u8>), PasetoError>)
    ensures
        decoded_view(r) == spec_paseto_decode(token@),
{
    let cs = chars_of(token);
    let n: usize = cs.len();
    let h = header_chars();
    if n < 10 || !crate::text::chars_eq(vstd::slice::slice_subrange(cs.as_slice(), 0, 10), h.as_slice()) {
        return Err(PasetoError::InvalidPrefix);
    }
    let rest = vstd::slice::slice_subrange(cs.as_slice(), 10, n);
    proof {
        lemma_lfind(rest@, '.');
    }
    let i: usize = match lfind_exec(rest, '.') {
        None => return Err(PasetoError::InvalidSig),
        Some(i) => i,
    };
    let after = vstd::slice::slice_subrange(rest, i + 1, rest.len());
    if lfind_exec(after, '.').is_some() {
        return Err(PasetoError::FooterNotSupported);
    }
    let payload_text = string_of(vstd::slice::slice_subrange(rest, 0, i));
    let sig_text = string_of(after);
    let payload = match b64_url_decode(payload_text.as_str()) {
        None => return Err(PasetoError::PayloadB64DecodeFailed),
        Some(p) => p,
    };
    let sig = match b64_url_decode(sig_text.as_str()) {
        None => return Err(PasetoError::SigB64DecodeFailed),
        Some(s) => s,
    };
    Ok((payload, sig))
}

/// Whether a token is accepted: its parts decode, its claims are present, the
/// audience is `neqst-remote`, it has not expired, it was not issued more than
/// 30 seconds ahead of `now`, its lifetime (`exp - iat`) is at most 30 minutes,
/// and the signature verifies strictly under the key.
pub open spec fn spec_verify_paseto(
    token: Seq<char>,
    claims: Option<PasetoClaims>,
    public_key: Seq<u8>,
    now: u64,
) -> Result<(), PasetoError> {
    match spec_paseto_decode(token) {
        Err(e) => Err(e),
        Ok((payload, sig)) => match claims {
            None => Err(PasetoError::PayloadJsonInvalid),
            Some(c) => if c.aud@ != "neqst-remote"@ {
                Err(PasetoError::AudMismatch)
            } else if c.exp <= now {
                Err(PasetoError::TokenExpired)
            } else if c.iat > now + 30 {
                Err(PasetoError::IatInFuture)
            } else if c.exp > c.iat + MAX_TOKEN_LIFETIME_SECS {
                Err(PasetoError::LifetimeTooLong)
            } else if sig.len() != 64 {
                Err(PasetoError::SigInvalid)
            } else if !ed25519_verify_strict(public_key, paseto_signed_message(payload), sig) {
                Err(PasetoError::SignatureVerifyFailed)
            } else {
                Ok(())
            },
        },
    }
}

/// Checks a v4.public token against a public key at time `now`; `claims` are
/// the claims read from the token's payload, `None` when they do not parse.
pub fn verify_paseto_v4_public(token: &str, claims: Option<&PasetoClaims>, public_key: &[u8], now: u64) -> (r: Result<(), PasetoError>)
    requires
        public_key@.len() == 32,
    ensures
        r == spec_verify_paseto(token@, match claims { Some(c) => Some(*c), None => None }, public_key@, now),
{
    let (payload, sig) = decode_paseto_v4_public(token)?;
    let c = match claims {
        None => return Err(PasetoError::PayloadJsonInvalid),
        Some(c) => c,
    };
    if !crate::text::str_eq(c.aud.as_str(), "neqst-remote") {
        return Err(PasetoError::AudMismatch);
    }
    if c.exp <= now {
        return Err(PasetoError::TokenExpired);
    }
    if c.iat > now && c.iat - now > 30 {
        return Err(PasetoError::IatInFuture);
    }
    if c.exp > c.iat && c.exp - c.iat > MAX_TOKEN_LIFETIME_SECS {
        return Err(PasetoError::LifetimeTooLong);
    }
    if sig.len() != 64 {
        return Err(PasetoError::SigInvalid);
    }
    let m = signed_message(payload.as_slice());
    if !ed25519_verify(public_key, m.as_slice(), sig.as_slice()) {
        return Err(PasetoError::SignatureVerifyFailed);
    }
    Ok(())
}

} // verus!

verus! {

/// Why a public key setting was refused.
#[derive(Clone, Copy, Debug, PartialEq, Eq, Structural)]
pub enum KeyParseError {
    DecodeFailed,
    WrongLength,
    Invalid,
}

/// Bytes of key text: URL-safe unpadded base64, or else standard unpadded base64.
pub open spec fn key_text_bytes(text: Seq<char>) -> Option<Seq<u8>> {
    match b64_url_bytes(text) {
        Some(b) => Some(b),
        None => b64_std_bytes(text),
    }
}

fn decode_key_text(text: &str) -> (r: Option<Vec<u8>>)
    ensures
        opt_bytes(r) == key_text_bytes(text@),
{
    match b64_url_decode(text) {
        Some(b) => Some(b),
        None => b64_std_decode(text),
    }
}

/// An Ed25519 public key given in base64: 32 bytes that decode to a curve point.
pub open spec fn spec_parse_pubkey(text: Seq<char>) -> Result<Seq<u8>, KeyParseError> {
    match key_text_bytes(text) {
        None => Err(KeyParseError::DecodeFailed),
        Some(b) => if b.len() != 32 {
            Err(KeyParseError::WrongLength)
        } else if !ed25519_point_valid(b) {
            Err(KeyParseError::Invalid)
        } else {
            Ok(b)
        },
    }
}

/// Parses an Ed25519 public key given in base64.
pub fn parse_ed25519_pubkey_b64(value: &str) -> (r: Result<Vec<u8>, KeyParseError>)
    ensures
        match r {
            Ok(k) => spec_parse_pubkey(value@) == Ok::<Seq<u8>, KeyParseError>(k@),
            Err(e) => spec_parse_pubkey(value@) == Err::<Seq<u8>, KeyParseError>(e),
        },
{
    let bytes = match decode_key_text(value) {
        None => return Err(KeyParseError::DecodeFailed),
        Some(b) => b,
    };
    if bytes.len() != 32 {
        return Err(KeyParseError::WrongLength);
    }
    if !ed25519_public_key_valid(bytes.as_slice()) {
        return Err(KeyParseError::Invalid);
    }
    Ok(bytes)
}

/// An Ed25519 secret key given in base64 (surrounding whitespace ignored): 32 bytes.
pub open spec fn spec_parse_signing_key(text: Seq<char>) -> Option<Seq<u8>> {
    let t = trim_ws(text);
    if t.len() == 0 {
        None
    } else {
        match key_text_bytes(t) {
            Some(b) => if b.len() == 32 {
                Some(b)
            } else {
                None
            },
            None => None,
        }
    }
}

/// Parses the master signing key setting.
pub fn parse_ed25519_signing_key_b64(value: &str) -> (r: Option<Vec<u8>>)
    ensures
        opt_bytes(r) == spec_parse_signing_key(value@),
{
    let cs = chars_of(value);
    let t = trim(cs.as_slice());
    if t.len() == 0 {
        return None;
    }
    let text = string_of(t.as_slice());
    match decode_key_text(text.as_str()) {
        Some(b) => if b.len() == 32 {
            Some(b)
        } else {
            None
        },
        None => None,
    }
}

/// A fresh token nonce: 16 random bytes in unpadded URL-safe base64;
/// `None` when the random source fails.
pub fn new_token_nonce() -> (nonce: Option<String>)
    ensures
        nonce matches Some(n) ==> {
            &&& exists|b: Seq<u8>| b.len() == 16 && n@ == #[trigger] b64_url_text(b)
            &&& n@.len() == 22
        },
{
    let bytes = match os_random_bytes(16) {
        Some(b) => b,
        None => return None,
    };
    Some(b64_url_encode(bytes.as_slice()))
}

/// The admission policy for WebSocket peers.
pub struct RemoteClientGuard {
    expected_remote_token: Option<String>,
    master_pubkey: Option<Vec<u8>>,
    forensic_dir: String,
}

/// View of an optional string.
pub open spec fn opt_text(o: Option<String>) -> Option<Seq<char>> {
    match o {
        Some(s) => Some(s@),
        None => None,
    }
}

/// View of an optional string slice.
pub open spec fn opt_str(o: Option<&str>) -> Option<Seq<char>> {
    match o {
        Some(s) => Some(s@),
        None => None,
    }
}

/// A setting value that is present and not empty.
pub open spec fn nonempty(o: Option<Seq<char>>) -> Option<Seq<char>> {
    match o {
        Some(s) => if s.len() == 0 {
            None
        } else {
            Some(s)
        },
        None => None,
    }
}

/// The directory for forensic records when none is configured.
pub open spec fn default_forensic_dir() -> Seq<char> {
    "../ForensicData"@
}

/// Ok value of a result, if any.
pub open spec fn ok_of<T, E>(r: Result<T, E>) -> Option<T> {
    match r {
        Ok(t) => Some(t),
        Err(_) => None,
    }
}

/// A rejected admission: the error and, for a refused token, why it was refused.
pub type GuardRejection = (GuardError, Option<PasetoError>);

impl GuardError {
    /// Kind of the forensic record written for the rejection.
    pub fn forensic_kind(&self) -> (k: &'static str)
        ensures
            k@ == match *self {
                GuardError::MissingToken => "remote_auth_missing_token"@,
                GuardError::TokenMismatch => "remote_auth_token_mismatch"@,
                GuardError::KeyUnavailable => "remote_auth_pubkey_unavailable"@,
                GuardError::InvalidSignature => "remote_auth_signature_invalid"@,
            },
    {
        match self {
            GuardError::MissingToken => "remote_auth_missing_token",
            GuardError::TokenMismatch => "remote_auth_token_mismatch",
            GuardError::KeyUnavailable => "remote_auth_pubkey_unavailable",
            GuardError::InvalidSignature => "remote_auth_signature_invalid",
        }
    }

    /// Reason recorded in the forensic record.
    pub fn reason(&self) -> (r: &'static str)
        ensures
            r@ == match *self {
                GuardError::MissingToken => "missing_token"@,
                GuardError::TokenMismatch => "token_mismatch"@,
                GuardError::KeyUnavailable => "pubkey_unavailable"@,
                GuardError::InvalidSignature => "signature_invalid"@,
            },
    {
        match self {
            GuardError::MissingToken => "missing_token",
            GuardError::TokenMismatch => "token_mismatch",
            GuardError::KeyUnavailable => "pubkey_unavailable",
            GuardError::InvalidSignature => "signature_invalid",
        }
    }
}

/// The token a peer presents: the query parameter, or else the header.
pub open spec fn presented_token(param: Option<Seq<char>>, header: Option<Seq<char>>) -> Option<Seq<char>> {
    match param {
        Some(t) => Some(t),
        None => header,
    }
}

/// The admission decision for a peer.
pub open spec fn spec_authorize(
    expected: Option<Seq<char>>,
    master_key: Option<Seq<u8>>,
    peer_loopback: bool,
    token: Option<Seq<char>>,
    claims: Option<PasetoClaims>,
    now: u64,
) -> Result<ClientMode, GuardRejection> {
    if peer_loopback {
        Ok(ClientMode::Local)
    } else {
        match token {
            None => Err((GuardError::MissingToken, None)),
            Some(t) => if expected is Some && expected != Some(t) {
                Err((GuardError::TokenMismatch, None))
            } else {
                match master_key {
                    None => Err((GuardError::KeyUnavailable, None)),
                    Some(k) => match spec_verify_paseto(t, claims, k, now) {
                        Err(e) => Err((GuardError::InvalidSignature, Some(e))),
                        Ok(()) => Ok(ClientMode::Remote),
                    },
                }
            },
        }
    }
}

impl RemoteClientGuard {
    #[verifier::type_invariant]
    spec fn key_ok(self) -> bool {
        self.master_pubkey matches Some(k) ==> k@.len() == 32
    }

    /// The token remote peers must present, if one is configured.
    pub closed spec fn expected_token(self) -> Option<Seq<char>> {
        opt_text(self.expected_remote_token)
    }

    /// The master public key, if one is configured.
    pub closed spec fn master_key(self) -> Option<Seq<u8>> {
        opt_bytes(self.master_pubkey)
    }

    /// Where forensic records go.
    pub closed spec fn forensic_dir_view(self) -> Seq<char> {
        self.forensic_dir@
    }

    /// Builds the guard from its settings: the remote token, the master public
    /// key in base64 and the forensic directory. Empty settings count as absent;
    /// a public key that does not parse is dropped.
    pub fn from_env(
        remote_token: Option<&str>,
        master_pubkey_b64: Option<&str>,
        forensic_dir: Option<&str>,
    ) -> (g: Self)
        ensures
            g.expected_token() == nonempty(opt_str(remote_token)),
            g.master_key() == match master_pubkey_b64 {
                Some(v) => ok_of(spec_parse_pubkey(v@)),
                None => None,
            },
            g.forensic_dir_view() == match nonempty(opt_str(forensic_dir)) {
                Some(d) => d,
                None => default_forensic_dir(),
            },
    {
        let expected_remote_token = match remote_token {
            Some(t) => if t.is_empty() {
                None
            } else {
                Some(String::from_str(t))
            },
            None => None,
        };
        let master_pubkey = match master_pubkey_b64 {
            Some(v) => match parse_ed25519_pubkey_b64(v) {
                Ok(k) => Some(k),
                Err(_) => None,
            },
            None => None,
        };
        let dir = match forensic_dir {
            Some(d) => if d.is_empty() {
                String::from_str("../ForensicData")
            } else {
                String::from_str(d)
            },
            None => String::from_str("../ForensicData"),
        };
        RemoteClientGuard { expected_remote_token, master_pubkey, forensic_dir: dir }
    }

    /// Where forensic records go.
    pub fn forensic_dir(&self) -> (d: &str)
        ensures
            d@ == self.forensic_dir_view(),
    {
        self.forensic_dir.as_str()
    }

    /// Decides whether a peer is admitted. `claims` are the claims read from the
    /// payload of the presented token (the query parameter, else the header),
    /// `None` when they do not parse.
    pub fn authorize_ws(
        &self,
        peer_ip: &IpAddress,
        token_param: Option<&str>,
        header_token: Option<&str>,
        claims: Option<&PasetoClaims>,
        now: u64,
    ) -> (r: Result<ClientMode, GuardRejection>)
        ensures
            r == spec_authorize(
                self.expected_token(),
                self.master_key(),
                spec_is_loopback(*peer_ip),
                presented_token(opt_str(token_param), opt_str(header_token)),
                match claims { Some(c) => Some(*c), None => None },
                now,
            ),
    {
        proof {
            use_type_invariant(self);
        }
        if is_loopback(peer_ip) {
            return Ok(ClientMode::Local);
        }
        let token: &str = match token_param {
            Some(t) => t,
            None => match header_token {
                Some(t) => t,
                None => return Err((GuardError::MissingToken, None)),
            },
        };
        if let Some(expected) = &self.expected_remote_token {
            if !crate::text::str_eq(token, expected.as_str()) {
                return Err((GuardError::TokenMismatch, None));
            }
        }
        let key = match &self.master_pubkey {
            None => return Err((GuardError::KeyUnavailable, None)),
            Some(k) => k,
        };
        match verify_paseto_v4_public(token, claims, key.as_slice(), now) {
            Err(e) => Err((GuardError::InvalidSignature, Some(e))),
            Ok(()) => Ok(ClientMode::Remote),
        }
    }
}

} // verus!

verus! {

#[verifier::external_type_specification]
#[verifier::external_body]
pub struct ExSystemTime(std::time::SystemTime);

/// `SystemTime::now`. Nothing is claimed of the clock.
#[verifier::external_body]
fn system_time_now() -> std::time::SystemTime {
    std::time::SystemTime::now()
}

/// `SystemTime::duration_since(UNIX_EPOCH)`, `None` when the clock is before the epoch.
/// Nothing is claimed of the clock.
#[verifier::external_body]
fn duration_since_unix_epoch(t: &std::time::SystemTime) -> Option<std::time::Duration> {
    t.duration_since(std::time::UNIX_EPOCH).ok()
}

/// `Duration::as_secs`. Nothing is claimed of the value.
#[verifier::external_body]
fn duration_secs(d: &std::time::Duration) -> u64 {
    d.as_secs()
}

/// Seconds since the Unix epoch, 0 when the clock reads earlier than the epoch.
pub fn unix_now() -> u64 {
    let t = system_time_now();
    match duration_since_unix_epoch(&t) {
        Some(d) => duration_secs(&d),
        None => 0,
    }
}

} // verus!

verus! {

/// Loopback peers are always admitted, as local clients.
pub proof fn law_loopback_peers_are_local(
    expected: Option<Seq<char>>,
    master_key: Option<Seq<u8>>,
    token: Option<Seq<char>>,
    claims: Option<PasetoClaims>,
    now: u64,
)
    ensures
        spec_authorize(expected, master_key, true, token, claims, now) == Ok::<ClientMode, GuardRejection>(ClientMode::Local),
{
}

/// A peer that is not on the loopback interface is admitted only as a remote
/// client, only with a token, only with the configured token when one is
/// configured, and only when the token verifies under the master key.
pub proof fn law_remote_admission_requires_valid_token(
    expected: Option<Seq<char>>,
    master_key: Option<Seq<u8>>,
    token: Option<Seq<char>>,
    claims: Option<PasetoClaims>,
    now: u64,
    mode: ClientMode,
)
    requires
        spec_authorize(expected, master_key, false, token, claims, now) == Ok::<ClientMode, GuardRejection>(mode),
    ensures
        mode == ClientMode::Remote,
        token is Some,
        expected is Some ==> expected == token,
        master_key is Some,
        spec_verify_paseto(token->0, claims, master_key->0, now) == Ok::<(), PasetoError>(()),
{
}

/// An accepted token has not expired, was not issued more than 30 seconds ahead,
/// and lives at most 30 minutes.
pub proof fn law_accepted_token_is_current(token: Seq<char>, claims: Option<PasetoClaims>, public_key: Seq<u8>, now: u64)
    requires
        spec_verify_paseto(token, claims, public_key, now) == Ok::<(), PasetoError>(()),
    ensures
        claims is Some,
        claims->0.exp > now,
        claims->0.iat <= now + 30,
        claims->0.exp <= claims->0.iat + MAX_TOKEN_LIFETIME_SECS,
        claims->0.aud@ == "neqst-remote"@,
{
}

} // verus!

verus! {

use crate::json::{jobject, jview, JsonNumber, JsonValue, JsonView, ObjectBuilder};

/// A forensic record: when, what kind, from which peer (when known), and its data.
pub open spec fn forensic_event_view(ts_unix: u64, kind: Seq<char>, peer: Option<Seq<char>>, data: JsonView) -> JsonView {
    match peer {
        Some(p) => jobject(
            seq![
                ("ts_unix"@, JsonView::Number(JsonNumber::PosInt(ts_unix))),
                ("kind"@, JsonView::Str(kind)),
                ("peer"@, JsonView::Str(p)),
                ("data"@, data),
            ],
        ),
        None => jobject(
            seq![
                ("ts_unix"@, JsonView::Number(JsonNumber::PosInt(ts_unix))),
                ("kind"@, JsonView::Str(kind)),
                ("data"@, data),
            ],
        ),
    }
}

/// A forensic record, written as one line of the forensic log.
pub fn forensic_event(ts_unix: u64, kind: &str, peer: Option<&str>, data: JsonValue) -> (v: JsonValue)
    ensures
        jview(v) == forensic_event_view(ts_unix, kind@, opt_str(peer), jview(data)),
{
    let ghost dv = jview(data);
    let mut b = ObjectBuilder::new();
    b.add("ts_unix", JsonValue::Number(JsonNumber::PosInt(ts_unix)));
    b.add("kind", JsonValue::String(String::from_str(kind)));
    match peer {
        Some(p) => b.add("peer", JsonValue::String(String::from_str(p))),
        None => {},
    }
    b.add("data", data);
    assert(b.view() =~= forensic_event_view(ts_unix, kind@, opt_str(peer), dv)->Object_0);
    b.build()
}

/// The data recorded for a refused peer: why, and for a refused token, the refusal's code.
pub open spec fn rejection_data_view(rej: GuardRejection) -> JsonView {
    let reason = match rej.0 {
        GuardError::MissingToken => "missing_token"@,
        GuardError::TokenMismatch => "token_mismatch"@,
        GuardError::KeyUnavailable => "pubkey_unavailable"@,
        GuardError::InvalidSignature => "signature_invalid"@,
    };
    match (rej.0, rej.1) {
        (GuardError::InvalidSignature, Some(e)) => jobject(
            seq![("reason"@, JsonView::Str(reason)), ("detail"@, JsonView::Str(spec_paseto_error_code(e)))],
        ),
        _ => jobject(seq![("reason"@, JsonView::Str(reason))]),
    }
}

/// The data recorded for a refused peer.
pub fn rejection_data(rej: &GuardRejection) -> (v: JsonValue)
    ensures
        jview(v) == rejection_data_view(*rej),
{
    let mut b = ObjectBuilder::new();
    b.add("reason", JsonValue::String(String::from_str(rej.0.reason())));
    match (rej.0, rej.1) {
        (GuardError::InvalidSignature, Some(e)) => b.add("detail", JsonValue::String(String::from_str(e.code()))),
        _ => {},
    }
    assert(b.view() =~= rejection_data_view(*rej)->Object_0);
    b.build()
}

} // verus!
