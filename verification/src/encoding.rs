//! Public keys as the directory carries them: the PKCS#1 PEM text of the key,
//! with CRLF line endings, in base64 without padding.

use vstd::prelude::*;
use vstd::utf8::*;
use crate::crypto::option_view;
use crate::keys::{canonical, PublicKey, PublicKeyView};

verus! {

/// The PEM text that `EncodeRsaPublicKey::to_pkcs1_pem` with CRLF line endings
/// gives for a key, or `None` where the key cannot be encoded.
pub uninterp spec fn pkcs1_pem_text(key: PublicKeyView) -> Option<Seq<char>>;

/// The modulus and the public exponent, both big-endian, of the key that
/// `DecodeRsaPublicKey::from_pkcs1_pem` reads from a text, or `None` where it
/// reports an error.
pub uninterp spec fn pkcs1_pem_key(pem: Seq<char>) -> Option<(Seq<u8>, Seq<u8>)>;

/// The character that stands for a number below 64 in base64.
pub open spec fn base64_char(v: int) -> char {
    if v < 26 {
        (65 + v) as char
    } else if v < 52 {
        (71 + v) as char
    } else if v < 62 {
        (v - 4) as char
    } else if v == 62 {
        '+'
    } else {
        '/'
    }
}

/// Bytes in base64 without padding: every three bytes give four
/// characters of six bits each, and one or two bytes left over give two or
/// three.
pub open spec fn base64_text(bytes: Seq<u8>) -> Seq<char>
    decreases bytes.len(),
{
    if bytes.len() == 0 {
        Seq::empty()
    } else if bytes.len() == 1 {
        seq![base64_char(bytes[0] as int / 4), base64_char(bytes[0] as int % 4 * 16)]
    } else if bytes.len() == 2 {
        seq![
            base64_char(bytes[0] as int / 4),
            base64_char(bytes[0] as int % 4 * 16 + bytes[1] as int / 16),
            base64_char(bytes[1] as int % 16 * 4),
        ]
    } else {
        seq![
            base64_char(bytes[0] as int / 4),
            base64_char(bytes[0] as int % 4 * 16 + bytes[1] as int / 16),
            base64_char(bytes[1] as int % 16 * 4 + bytes[2] as int / 64),
            base64_char(bytes[2] as int % 64),
        ] + base64_text(bytes.skip(3))
    }
}

/// The bytes that the base64 engine `STANDARD_NO_PAD` decodes a text to, or
/// `None` where it reports an error.
pub uninterp spec fn base64_bytes(text: Seq<char>) -> Option<Seq<u8>>;

/// The view of an optional string.
pub open spec fn option_text(text: Option<String>) -> Option<Seq<char>> {
    match text {
        Some(t) => Some(t@),
        None => None,
    }
}

/// The view of an optional pair of byte vectors.
pub open spec fn option_pair_view(pair: Option<(Vec<u8>, Vec<u8>)>) -> Option<(Seq<u8>, Seq<u8>)> {
    match pair {
        Some((a, b)) => Some((a@, b@)),
        None => None,
    }
}

/// `rsa::pkcs1::EncodeRsaPublicKey::to_pkcs1_pem` with `LineEnding::CRLF`, on
/// the key that `RsaPublicKey::new` builds from the two numbers. The result
/// is named `pkcs1_pem_text`; reading it back gives the same two numbers.
#[verifier::external_body]
fn pkcs1_pem_encode(key: &PublicKey) -> (pem: Option<String>)
    requires
        key@.well_formed(),
    ensures
        option_text(pem) == pkcs1_pem_text(key@),
        pem matches Some(p) ==> pkcs1_pem_key(p@) == Some((key@.n, key@.e)),
{
    let n = rsa::BigUint::from_bytes_be(&key.n);
    let e = rsa::BigUint::from_bytes_be(&key.e);
    let key = rsa::RsaPublicKey::new(n, e).ok()?;
    rsa::pkcs1::EncodeRsaPublicKey::to_pkcs1_pem(&key, rsa::pkcs1::LineEnding::CRLF).ok()
}

/// `rsa::pkcs1::DecodeRsaPublicKey::from_pkcs1_pem` for `RsaPublicKey`, and the
/// big-endian bytes of the modulus and exponent it read. The result is named
/// `pkcs1_pem_key`.
#[verifier::external_body]
fn pkcs1_pem_decode(pem: &str) -> (parts: Option<(Vec<u8>, Vec<u8>)>)
    ensures
        option_pair_view(parts) == pkcs1_pem_key(pem@),
{
    let key = <rsa::RsaPublicKey as rsa::pkcs1::DecodeRsaPublicKey>::from_pkcs1_pem(pem).ok()?;
    let n = rsa::PublicKeyParts::n(&key).to_bytes_be();
    let e = rsa::PublicKeyParts::e(&key).to_bytes_be();
    Some((n, e))
}

/// `base64::Engine::encode` of the engine `STANDARD_NO_PAD`: the bytes in
/// base64 without padding. Decoding the result gives the bytes back.
#[verifier::external_body]
fn base64_encode(bytes: &[u8]) -> (text: String)
    ensures
        text@ == base64_text(bytes@),
        base64_bytes(text@) == Some(bytes@),
{
    base64::Engine::encode(&base64::engine::general_purpose::STANDARD_NO_PAD, bytes)
}

/// `base64::Engine::decode` of the engine `STANDARD_NO_PAD`. The result is
/// named `base64_bytes`.
#[verifier::external_body]
fn base64_decode(text: &str) -> (bytes: Option<Vec<u8>>)
    ensures
        option_view(bytes) == base64_bytes(text@),
{
    base64::Engine::decode(&base64::engine::general_purpose::STANDARD_NO_PAD, text).ok()
}

/// `String::from_utf8`: the text that the bytes encode, where they are
/// valid UTF-8.
#[verifier::external_body]
fn utf8_text(bytes: Vec<u8>) -> (text: Option<String>)
    ensures
        text is Some <==> valid_utf8(bytes@),
        text matches Some(t) ==> t@ == decode_utf8(bytes@),
{
    String::from_utf8(bytes).ok()
}

/// The directory text of a key: the base64 of the UTF-8 bytes of its PEM
/// text. A key that has no PEM text has none.
pub open spec fn key_text(key: PublicKeyView) -> Option<Seq<char>> {
    match pkcs1_pem_text(key) {
        Some(pem) => Some(base64_text(encode_utf8(pem))),
        None => None,
    }
}

/// The key that a directory text stands for: the text is base64 of valid
/// UTF-8 that reads as a PEM key whose two numbers are written canonically.
pub open spec fn text_key(text: Seq<char>) -> Option<PublicKeyView> {
    match base64_bytes(text) {
        None => None,
        Some(bytes) => if !valid_utf8(bytes) {
            None
        } else {
            match pkcs1_pem_key(decode_utf8(bytes)) {
                None => None,
                Some((n, e)) => if canonical(n) && canonical(e) {
                    Some(PublicKeyView { n, e })
                } else {
                    None
                },
            }
        },
    }
}

/// The view of an optional key.
pub open spec fn option_key_view(key: Option<PublicKey>) -> Option<PublicKeyView> {
    match key {
        Some(k) => Some(k@),
        None => None,
    }
}

/// Encodes a key for the directory. `None` where the key has no PEM text.
///
/// Decoding reverses encoding: the text that comes out stands for the key
/// that went in.
pub fn rsa_pub_key_to_b64(key: &PublicKey) -> (text: Option<String>)
    ensures
        option_text(text) == key_text(key@),
        text matches Some(t) ==> text_key(t@) == Some(key@),
{
    proof {
        use_type_invariant(key);
    }
    match pkcs1_pem_encode(key) {
        None => None,
        Some(pem) => {
            let text = base64_encode(pem.as_str().as_bytes());
            proof {
                encode_utf8_valid_utf8(pem@);
                encode_utf8_decode_utf8(pem@);
            }
            Some(text)
        },
    }
}

/// Decodes a key from its directory text. `None` where the text is not
/// base64, not UTF-8 underneath, or not the PEM text of a key.
pub fn b64_to_rsa_pub_key(s: &str) -> (key: Option<PublicKey>)
    ensures
        option_key_view(key) == text_key(s@),
{
    let bytes = match base64_decode(s) {
        Some(bytes) => bytes,
        None => {
            return None;
        },
    };
    let pem = match utf8_text(bytes) {
        Some(pem) => pem,
        None => {
            return None;
        },
    };
    match pkcs1_pem_decode(pem.as_str()) {
        None => None,
        Some((n, e)) => PublicKey::from_components(n, e),
    }
}

} // verus!
