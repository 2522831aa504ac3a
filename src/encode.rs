use vstd::prelude::*;

use ring::rand::SecureRandom;

use crate::text::chars_of;

verus! {

broadcast use vstd::string::group_string_axioms;

/// Hex digit of `n` (below 16), in the given case.
pub open spec fn hex_digit(n: u8, upper: bool) -> char {
    if n < 10 {
        (n + 48) as char
    } else if upper {
        (n + 55) as char
    } else {
        (n + 87) as char
    }
}

/// The two hex digits of `b`.
pub open spec fn hex_pair(b: u8, upper: bool) -> Seq<char> {
    seq![hex_digit(b / 16, upper), hex_digit(b % 16, upper)]
}

/// Lowercase hex of `b`, two digits per byte.
pub open spec fn hex_lower(b: Seq<u8>) -> Seq<char>
    decreases b.len(),
{
    if b.len() == 0 {
        Seq::empty()
    } else {
        hex_lower(b.drop_last()) + hex_pair(b.last(), false)
    }
}

/// Bytes that the signer percent-encodes: controls, non-ASCII bytes, and
/// `space " < > ` # ? / : = @ & % ,`.
pub open spec fn in_url_set(b: u8) -> bool {
    b < 0x20 || b >= 0x7F || b == 0x20 || b == 0x22 || b == 0x3C || b == 0x3E || b == 0x60 || b
        == 0x23 || b == 0x3F || b == 0x2F || b == 0x3A || b == 0x3D || b == 0x40 || b == 0x26 || b
        == 0x25 || b == 0x2C
}

pub open spec fn encoded_byte(b: u8) -> Seq<char> {
    if in_url_set(b) {
        seq!['%'] + hex_pair(b, true)
    } else {
        seq![b as char]
    }
}

/// Percent-encoding of the bytes `b`.
pub open spec fn url_encoded(b: Seq<u8>) -> Seq<char>
    decreases b.len(),
{
    if b.len() == 0 {
        Seq::empty()
    } else {
        url_encoded(b.drop_last()) + encoded_byte(b.last())
    }
}

/// Percent-encoding of the UTF-8 bytes of `s`.
pub open spec fn url_encoded_str(s: Seq<char>) -> Seq<char> {
    url_encoded(vstd::utf8::encode_utf8(s))
}

/// Relies on percent_encoding's `percent_encode_byte`: `%` and two uppercase
/// hex digits.
#[verifier::external_body]
fn percent_byte(byte: u8) -> (r: &'static str)
    ensures
        r@ == seq!['%'] + hex_pair(byte, true),
{
    percent_encoding::percent_encode_byte(byte)
}

/// Percent-encodes `s` byte by byte.
pub fn url_encode(s: &str) -> (r: String)
    ensures
        r@ == url_encoded_str(s@),
{
    let bytes = s.as_bytes();
    let mut r = String::new();
    let mut i: usize = 0;
    while i < bytes.len()
        invariant
            i <= bytes@.len(),
            bytes@ == vstd::utf8::encode_utf8(s@),
            r@ == url_encoded(bytes@.take(i as int)),
        decreases bytes.len() - i,
    {
        let b = bytes[i];
        assert(bytes@.take(i + 1).drop_last() =~= bytes@.take(i as int));
        let enc = b < 0x20 || b >= 0x7F || b == 0x20 || b == 0x22 || b == 0x3C || b == 0x3E || b
            == 0x60 || b == 0x23 || b == 0x3F || b == 0x2F || b == 0x3A || b == 0x3D || b == 0x40
            || b == 0x26 || b == 0x25 || b == 0x2C;
        if enc {
            r.append(percent_byte(b));
        } else {
            r.push(b as char);
        }
        i = i + 1;
    }
    assert(bytes@.take(i as int) =~= bytes@);
    r
}

/// Relies on hex's `encode`: two lowercase hex digits per byte.
#[verifier::external_body]
fn hex_encode(data: &[u8]) -> (r: String)
    ensures
        r@ == hex_lower(data@),
{
    hex::encode(data)
}

/// Relies on ring's `SystemRandom::fill`: fills the buffer with random bytes;
/// `None` where the system source fails.
#[verifier::external_body]
fn random_bytes_16() -> (r: Option<[u8; 16]>) {
    let mut nonce = [0u8; 16];
    match ring::rand::SystemRandom::new().fill(&mut nonce) {
        Ok(()) => Some(nonce),
        Err(_) => None,
    }
}

/// A fresh nonce: 32 lowercase hex digits of 16 random bytes; `None` where
/// the system's random source fails.
pub fn generate_nonce() -> (r: Option<String>)
    ensures
        r matches Some(n) ==> exists|b: Seq<u8>| b.len() == 16 && n@ == hex_lower(b),
{
    match random_bytes_16() {
        Some(nonce) => Some(hex_encode(&nonce)),
        None => None,
    }
}

/// Result of HMAC-SHA1 under `key` over `msg`.
pub uninterp spec fn hmac_sha1_of(key: Seq<u8>, msg: Seq<u8>) -> Seq<u8>;

/// Relies on ring's `hmac::sign` with `HMAC_SHA1_FOR_LEGACY_USE_ONLY`: the
/// tag depends on key and message alone.
#[verifier::external_body]
fn hmac_sha1(key: &[u8], msg: &[u8]) -> (r: Vec<u8>)
    ensures
        r@ == hmac_sha1_of(key@, msg@),
{
    let key = ring::hmac::Key::new(ring::hmac::HMAC_SHA1_FOR_LEGACY_USE_ONLY, key);
    ring::hmac::sign(&key, msg).as_ref().to_vec()
}

/// Standard padded base64 of `b`.
pub uninterp spec fn base64_of(b: Seq<u8>) -> Seq<char>;

/// Relies on base64's `encode`: standard alphabet with padding, which
/// depends on the input alone.
#[verifier::external_body]
fn base64_encode(input: &[u8]) -> (r: String)
    ensures
        r@ == base64_of(input@),
{
    base64::encode(input)
}

/// Signature of `base` under the key `cks&ts`: base64 of its HMAC-SHA1,
/// percent-encoded. The two secrets go into the key as they are.
pub open spec fn signature_of(cks: Seq<char>, ts: Seq<char>, base: Seq<char>) -> Seq<char> {
    let key = vstd::utf8::encode_utf8(cks + seq!['&'] + ts);
    url_encoded_str(base64_of(hmac_sha1_of(key, vstd::utf8::encode_utf8(base))))
}

/// Signs a signature base string with the two secrets.
pub fn sign_base_string(consumer_key_secret: &str, token_secret: &str, base_string: &str) -> (r: String)
    ensures
        r@ == signature_of(consumer_key_secret@, token_secret@, base_string@),
{
    let mut signing_key = String::new();
    signing_key.append(consumer_key_secret);
    signing_key.push('&');
    signing_key.append(token_secret);
    assert(signing_key@ =~= consumer_key_secret@ + seq!['&'] + token_secret@);
    let tag = hmac_sha1(signing_key.as_str().as_bytes(), base_string.as_bytes());
    let encoded = base64_encode(tag.as_slice());
    url_encode(encoded.as_str())
}

} // verus!
