//! Generation of secret identifiers.
//!
//! An identifier is 128 bits of cryptographically strong randomness rendered
//! in the URL-safe base64 alphabet without padding: 22 characters drawn from
//! `A-Z`, `a-z`, `0-9`, `-` and `_`. Uniqueness is probabilistic (fresh
//! randomness per id), so nothing here claims it; the character set and the
//! length are guaranteed.

use base64::Engine;
use vstd::prelude::*;

verus! {

/// A character of the URL-safe base64 alphabet (RFC 4648 section 5).
pub open spec fn is_url_safe_char(c: char) -> bool {
    ||| 'A' <= c && c <= 'Z'
    ||| 'a' <= c && c <= 'z'
    ||| '0' <= c && c <= '9'
    ||| c == '-'
    ||| c == '_'
}

/// Every character of `s` belongs to the URL-safe base64 alphabet.
pub open spec fn is_url_safe(s: Seq<char>) -> bool {
    forall|i: int| 0 <= i < s.len() ==> is_url_safe_char(s[i])
}

/// The URL-safe, unpadded base64 rendering of a byte sequence.
pub uninterp spec fn b64url_of(bytes: Seq<u8>) -> Seq<char>;

/// Relies on `uuid::Uuid::new_v4` and `Uuid::as_bytes`: sixteen bytes drawn
/// from a cryptographically secure random source (with the RFC 9562 version
/// and variant bits fixed). Nothing is promised of the bytes' values.
#[verifier::external_body]
fn random_uuid_bytes() -> (r: Vec<u8>)
    ensures
        r@.len() == 16,
{
    uuid::Uuid::new_v4().as_bytes().to_vec()
}

/// Relies on `base64`'s `URL_SAFE_NO_PAD` engine: encodes with the RFC 4648
/// section 5 alphabet (`A-Z`, `a-z`, `0-9`, `-`, `_`), emits no padding, and
/// is a pure function of the input bytes; 16 input bytes yield 22 characters.
#[verifier::external_body]
fn encode_url_safe(bytes: &Vec<u8>) -> (r: String)
    ensures
        r@ == b64url_of(bytes@),
        is_url_safe(r@),
        bytes@.len() == 16 ==> r@.len() == 22,
{
    base64::engine::general_purpose::URL_SAFE_NO_PAD.encode(bytes.as_slice())
}

/// A fresh identifier: 128 random bits in URL-safe unpadded base64.
pub fn fresh_id() -> (id: String)
    ensures
        id@.len() == 22,
        is_url_safe(id@),
{
    let bytes = random_uuid_bytes();
    encode_url_safe(&bytes)
}

} // verus!
