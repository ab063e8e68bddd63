//! Byte and text encodings used across the node: unpadded base64 (standard
//! and URL-safe alphabets) and UTF-8 decoding of byte buffers.

use base64::Engine;
use vstd::prelude::*;
use vstd::utf8::{decode_utf8, valid_utf8};

verus! {

/// View of an optional byte vector.
pub open spec fn opt_bytes(o: Option<Vec<u8>>) -> Option<Seq<u8>> {
    match o {
        Some(v) => Some(v@),
        None => None,
    }
}

/// Number of characters of the unpadded base64 text of `n` bytes.
pub open spec fn b64_nopad_len(n: nat) -> nat {
    4 * (n / 3) + if n % 3 == 0 { 0 } else { n % 3 + 1 }
}

/// Unpadded base64 text (standard alphabet) of the given bytes.
pub uninterp spec fn b64_std_text(bytes: Seq<u8>) -> Seq<char>;

/// Bytes of an unpadded base64 text (standard alphabet), `None` when the text
/// is not a canonical unpadded encoding.
pub uninterp spec fn b64_std_bytes(text: Seq<char>) -> Option<Seq<u8>>;

/// Unpadded base64 text (URL-safe alphabet) of the given bytes.
pub uninterp spec fn b64_url_text(bytes: Seq<u8>) -> Seq<char>;

/// Bytes of an unpadded base64 text (URL-safe alphabet), `None` when the text
/// is not a canonical unpadded encoding.
pub uninterp spec fn b64_url_bytes(text: Seq<char>) -> Option<Seq<u8>>;

/// `base64::engine::general_purpose::STANDARD_NO_PAD.encode`.
/// Claimed: the text is `b64_std_text(bytes)`, it has `b64_nopad_len` characters,
/// and decoding it with the same engine gives the bytes back.
/// The crate panics when the output length overflows `usize`; that input is excluded.
#[verifier::external_body]
pub(crate) fn b64_std_encode(bytes: &[u8]) -> (text: String)
    requires
        b64_nopad_len(bytes@.len() as nat) <= usize::MAX,
    ensures
        text@ == b64_std_text(bytes@),
        text@.len() == b64_nopad_len(bytes@.len() as nat),
        b64_std_bytes(text@) == Some(bytes@),
{
    base64::engine::general_purpose::STANDARD_NO_PAD.encode(bytes)
}

/// `base64::engine::general_purpose::STANDARD_NO_PAD.decode`.
/// Claimed: the result is `b64_std_bytes(text)`.
#[verifier::external_body]
pub(crate) fn b64_std_decode(text: &str) -> (bytes: Option<Vec<u8>>)
    ensures
        opt_bytes(bytes) == b64_std_bytes(text@),
{
    base64::engine::general_purpose::STANDARD_NO_PAD.decode(text).ok()
}

/// A character of the URL-safe base64 alphabet: letters, digits, `-` and `_`.
pub open spec fn url_safe_b64_char(c: char) -> bool {
    ('A' <= c && c <= 'Z') || ('a' <= c && c <= 'z') || ('0' <= c && c <= '9') || c == '-' || c == '_'
}

/// `base64::engine::general_purpose::URL_SAFE_NO_PAD.encode`.
/// Claimed: the text is `b64_url_text(bytes)`, it has `b64_nopad_len` characters,
/// all from the URL-safe alphabet (no padding), and decoding it with the same
/// engine gives the bytes back.
/// The crate panics when the output length overflows `usize`; that input is excluded.
#[verifier::external_body]
pub(crate) fn b64_url_encode(bytes: &[u8]) -> (text: String)
    requires
        b64_nopad_len(bytes@.len() as nat) <= usize::MAX,
    ensures
        text@ == b64_url_text(bytes@),
        text@.len() == b64_nopad_len(bytes@.len() as nat),
        forall|i: int| 0 <= i < text@.len() ==> url_safe_b64_char(#[trigger] text@[i]),
        b64_url_bytes(text@) == Some(bytes@),
{
    base64::engine::general_purpose::URL_SAFE_NO_PAD.encode(bytes)
}

/// `base64::engine::general_purpose::URL_SAFE_NO_PAD.decode`.
/// Claimed: the result is `b64_url_bytes(text)`.
#[verifier::external_body]
pub(crate) fn b64_url_decode(text: &str) -> (bytes: Option<Vec<u8>>)
    ensures
        opt_bytes(bytes) == b64_url_bytes(text@),
{
    base64::engine::general_purpose::URL_SAFE_NO_PAD.decode(text).ok()
}

/// `String::from_utf8`: succeeds exactly on valid UTF-8 and then holds the
/// decoded characters.
#[verifier::external_body]
pub(crate) fn string_from_utf8(bytes: Vec<u8>) -> (s: Option<String>)
    ensures
        s is Some <==> valid_utf8(bytes@),
        s matches Some(t) ==> t@ == decode_utf8(bytes@),
{
    String::from_utf8(bytes).ok()
}

} // verus!

verus! {

/// Whether the unpadded base64 text of `n` bytes has a length that fits in `usize`.
pub fn b64_len_fits(n: usize) -> (fits: bool)
    ensures
        fits == (b64_nopad_len(n as nat) <= usize::MAX),
{
    let q: usize = n / 3;
    let r: usize = n % 3;
    let extra: usize = if r == 0 { 0 } else { r + 1 };
    let bound: usize = (usize::MAX - extra) / 4;
    proof {
        assert(b64_nopad_len(n as nat) == 4 * q + extra);
        assert(q <= bound ==> 4 * q + extra <= usize::MAX) by (nonlinear_arith)
            requires bound == (usize::MAX - extra) / 4, extra <= 3;
        assert(q > bound ==> 4 * q + extra > usize::MAX) by (nonlinear_arith)
            requires bound == (usize::MAX - extra) / 4, extra <= 3;
    }
    q <= bound
}

} // verus!
