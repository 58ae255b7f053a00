//! Rules the HTTP layer consumes: request validation, error rendering,
//! rate-limit identity, and the standard security headers.
//!
//! The HTTP layer itself (routing, marshalling, middleware plumbing) is
//! thin glue outside this crate; every decision it takes — which requests
//! are admitted, which status and message each error carries, which headers
//! every response bears — is a verified function here.

use crate::models::{Secret, MAX_TTL_SECS};
use crate::store::StorageError;
use vstd::prelude::*;
use vstd::string::StrSliceExecFns;

verus! {

/// Errors surfaced to the API layer.
#[derive(Debug)]
pub enum ApiError {
    /// The request itself is malformed; carries the reason verbatim.
    BadRequest(&'static str),
    /// The secret does not exist, was already read, or expired — the three
    /// cases are deliberately indistinguishable.
    NotFound,
    /// A storage backend failure, passed through unchanged.
    Storage(StorageError),
    /// Any other server-side failure.
    Internal(String),
}

impl From<StorageError> for ApiError {
    /// A storage failure surfaces as `Storage`, unchanged.
    fn from(err: StorageError) -> (r: ApiError) {
        ApiError::Storage(err)
    }
}

impl vstd::std_specs::convert::FromSpecImpl<StorageError> for ApiError {
    open spec fn obeys_from_spec() -> bool {
        true
    }

    open spec fn from_spec(err: StorageError) -> ApiError {
        ApiError::Storage(err)
    }
}

impl ApiError {
    /// The HTTP status the error is rendered with.
    pub fn status_code(&self) -> (code: u16)
        ensures
            code == (match self {
                ApiError::BadRequest(_) => 400u16,
                ApiError::NotFound => 404u16,
                ApiError::Storage(_) => 500u16,
                ApiError::Internal(_) => 500u16,
            }),
    {
        match self {
            ApiError::BadRequest(_) => 400,
            ApiError::NotFound => 404,
            ApiError::Storage(_) => 500,
            ApiError::Internal(_) => 500,
        }
    }

    /// The message the error body carries. Storage failures are collapsed
    /// to a fixed message so that no backend detail leaks to a client.
    pub fn message(&self) -> (m: String)
        ensures
            m@ == (match self {
                ApiError::BadRequest(reason) => reason@,
                ApiError::NotFound => "secret not found"@,
                ApiError::Storage(_) => "internal storage error"@,
                ApiError::Internal(detail) => detail@,
            }),
    {
        match self {
            ApiError::BadRequest(reason) => (*reason).to_owned(),
            ApiError::NotFound => "secret not found".to_owned(),
            ApiError::Storage(_) => "internal storage error".to_owned(),
            ApiError::Internal(detail) => detail.clone(),
        }
    }
}

/// A character with the Unicode `White_Space` property — exactly the
/// characters trimmed from the ends of a string.
pub open spec fn is_whitespace_char(c: char) -> bool {
    ||| c as u32 == 0x9  // tab
    ||| c as u32 == 0xA  // line feed
    ||| c as u32 == 0xB  // vertical tab
    ||| c as u32 == 0xC  // form feed
    ||| c as u32 == 0xD  // carriage return
    ||| c as u32 == 0x20  // space
    ||| c as u32 == 0x85  // next line
    ||| c as u32 == 0xA0  // no-break space
    ||| c as u32 == 0x1680  // ogham space mark
    ||| (0x2000 <= c as u32 && c as u32 <= 0x200A)  // en quad .. hair space
    ||| c as u32 == 0x2028  // line separator
    ||| c as u32 == 0x2029  // paragraph separator
    ||| c as u32 == 0x202F  // narrow no-break space
    ||| c as u32 == 0x205F  // medium mathematical space
    ||| c as u32 == 0x3000  // ideographic space
}

/// Whether the string consists of whitespace alone, so that trimming it
/// leaves nothing. The empty string is blank.
pub open spec fn is_blank(s: Seq<char>) -> bool {
    forall|i: int| 0 <= i < s.len() ==> is_whitespace_char(s[i])
}

/// Executable test for `is_whitespace_char`.
pub fn char_is_whitespace(c: char) -> (r: bool)
    ensures
        r == is_whitespace_char(c),
{
    let u = c as u32;
    u == 0x9 || u == 0xA || u == 0xB || u == 0xC || u == 0xD || u == 0x20 || u == 0x85 || u == 0xA0
        || u == 0x1680 || (0x2000 <= u && u <= 0x200A) || u == 0x2028 || u == 0x2029 || u == 0x202F
        || u == 0x205F || u == 0x3000
}

/// Executable test for `is_blank`.
pub fn str_is_blank(s: &str) -> (r: bool)
    ensures
        r == is_blank(s@),
{
    let len = s.unicode_len();
    let mut i: usize = 0;
    while i < len
        invariant
            i <= len,
            len == s@.len(),
            forall|j: int| 0 <= j < i ==> is_whitespace_char(s@[j]),
        decreases len - i,
    {
        let c = s.get_char(i);
        if !char_is_whitespace(c) {
            return false;
        }
        i = i + 1;
    }
    true
}

/// Validate a creation request: ciphertext and initialisation vector must
/// not trim to nothing, and the time-to-live must lie between one second
/// and one day. Exactly the admitted requests return `Ok`.
pub fn validate_create(ciphertext: &str, iv: &str, ttl_secs: u32) -> (r: Result<(), ApiError>)
    ensures
        r is Ok <==> (!is_blank(ciphertext@) && !is_blank(iv@) && 1 <= ttl_secs <= MAX_TTL_SECS),
        (is_blank(ciphertext@) || is_blank(iv@)) ==> (r matches Err(ApiError::BadRequest(reason))
            && reason@ == "ciphertext and iv must be non-empty strings"@),
        (!is_blank(ciphertext@) && !is_blank(iv@) && !(1 <= ttl_secs <= MAX_TTL_SECS)) ==> (
        r matches Err(ApiError::BadRequest(reason)) && reason@
            == "ttl_secs must be between 1 and 86400 seconds"@),
{
    if str_is_blank(ciphertext) || str_is_blank(iv) {
        return Err(ApiError::BadRequest("ciphertext and iv must be non-empty strings"));
    }
    if ttl_secs == 0 || ttl_secs > MAX_TTL_SECS {
        return Err(ApiError::BadRequest("ttl_secs must be between 1 and 86400 seconds"));
    }
    Ok(())
}

/// The body of a successful secret read. The read mark and creation time
/// stay server-side: a client learns only the payload and its lifetime.
#[derive(Debug)]
pub struct SecretResponse {
    pub id: String,
    pub ciphertext: String,
    pub iv: String,
    pub ttl_secs: u32,
}

/// Turn a store lookup into the API outcome: the response body when the
/// secret was retrievable, `NotFound` otherwise.
pub fn render_secret(found: Option<Secret>) -> (r: Result<SecretResponse, ApiError>)
    ensures
        match found {
            Some(s) => r matches Ok(resp) && resp.id == s.id && resp.ciphertext == s.ciphertext
                && resp.iv == s.iv && resp.ttl_secs == s.ttl_secs,
            None => r matches Err(ApiError::NotFound),
        },
{
    match found {
        Some(s) => Ok(
            SecretResponse { id: s.id, ciphertext: s.ciphertext, iv: s.iv, ttl_secs: s.ttl_secs },
        ),
        None => Err(ApiError::NotFound),
    }
}

/// The identity a request is rate-limited under: its peer address when one
/// is known, else one shared fallback identity.
pub fn rate_limit_identity(peer_ip: Option<String>) -> (r: String)
    ensures
        r@ == (match peer_ip {
            Some(ip) => ip@,
            None => "global"@,
        }),
{
    match peer_ip {
        Some(ip) => ip,
        None => "global".to_owned(),
    }
}

/// The security headers applied to every response, in order: safe defaults
/// for an API-only backend.
pub fn security_headers() -> (hs: Vec<(String, String)>)
    ensures
        hs@.len() == 4,
        hs@[0].0@ == "X-Content-Type-Options"@ && hs@[0].1@ == "nosniff"@,
        hs@[1].0@ == "X-Frame-Options"@ && hs@[1].1@ == "DENY"@,
        hs@[2].0@ == "Referrer-Policy"@ && hs@[2].1@ == "no-referrer"@,
        hs@[3].0@ == "Strict-Transport-Security"@ && hs@[3].1@
            == "max-age=63072000; includeSubDomains; preload"@,
{
    let mut hs: Vec<(String, String)> = Vec::new();
    hs.push(("X-Content-Type-Options".to_owned(), "nosniff".to_owned()));
    hs.push(("X-Frame-Options".to_owned(), "DENY".to_owned()));
    hs.push(("Referrer-Policy".to_owned(), "no-referrer".to_owned()));
    hs.push(
        (
            "Strict-Transport-Security".to_owned(),
            "max-age=63072000; includeSubDomains; preload".to_owned(),
        ),
    );
    hs
}

} // verus!
