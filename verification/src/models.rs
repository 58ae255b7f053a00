//! The secret record.
//!
//! A `Secret` is immutable after creation except for one permitted change:
//! marking it read. It carries an opaque ciphertext and initialisation
//! vector (meaningless to the server), a creation time, a time-to-live of
//! one second up to one day, and the instant of its first (and only) read.

use crate::clock;
use crate::ids;
use crate::keyed;
use vstd::prelude::*;

verus! {

/// The largest permitted time-to-live: one day, in seconds.
pub const MAX_TTL_SECS: u32 = 86400;

/// An encrypted secret as stored by the service.
#[derive(Clone, Debug, PartialEq, Eq)]
pub struct Secret {
    /// Unique URL-safe identifier, assigned at creation.
    pub id: String,
    /// Opaque encrypted payload; the server never interprets it.
    pub ciphertext: String,
    /// Opaque initialisation vector belonging to the payload.
    pub iv: String,
    /// Creation instant, in seconds since the Unix epoch.
    pub created_at: u64,
    /// Lifetime in seconds from `created_at`; between 1 and `MAX_TTL_SECS`.
    pub ttl_secs: u32,
    /// Instant of the first successful read; `None` until then, set at most once.
    pub read_at: Option<u64>,
}

impl keyed::Keyed for Secret {
    /// A secret is addressed by its identifier.
    open spec fn key(&self) -> Seq<char> {
        self.id@
    }
}

impl Secret {
    /// The time-to-live lies in the permitted range of one second to one day.
    pub open spec fn ttl_valid(self) -> bool {
        1 <= self.ttl_secs <= MAX_TTL_SECS
    }

    /// The instant at which the secret expires, as an unbounded integer.
    pub open spec fn spec_expires_at(self) -> int {
        self.created_at + self.ttl_secs
    }

    /// A well-formed record: valid time-to-live, and an expiry instant that
    /// fits the machine representation.
    pub open spec fn wf(self) -> bool {
        &&& self.ttl_valid()
        &&& self.spec_expires_at() <= u64::MAX
    }

    /// Create a record with a freshly generated id, the given creation
    /// instant, and no read mark.
    pub fn new_at(ciphertext: String, iv: String, ttl_secs: u32, created_at: u64) -> (s: Secret)
        requires
            1 <= ttl_secs <= MAX_TTL_SECS,
            created_at + ttl_secs <= u64::MAX,
        ensures
            s.wf(),
            s.ciphertext == ciphertext,
            s.iv == iv,
            s.ttl_secs == ttl_secs,
            s.created_at == created_at,
            s.read_at is None,
            s.id@.len() == 22,
            ids::is_url_safe(s.id@),
    {
        let id = ids::fresh_id();
        Secret { id, ciphertext, iv, created_at, ttl_secs, read_at: None }
    }

    /// Create a record with a freshly generated id and the current time.
    pub fn new(ciphertext: String, iv: String, ttl_secs: u32) -> (s: Secret)
        requires
            1 <= ttl_secs <= MAX_TTL_SECS,
        ensures
            s.wf(),
            s.ciphertext == ciphertext,
            s.iv == iv,
            s.ttl_secs == ttl_secs,
            s.created_at <= clock::MAX_UNIX_TIME,
            s.read_at is None,
            s.id@.len() == 22,
            ids::is_url_safe(s.id@),
    {
        let created_at = clock::now_unix();
        Secret::new_at(ciphertext, iv, ttl_secs, created_at)
    }

    /// The instant at which this secret should expire.
    pub fn expires_at(&self) -> (t: u64)
        requires
            self.spec_expires_at() <= u64::MAX,
        ensures
            t == self.spec_expires_at(),
    {
        self.created_at + (self.ttl_secs as u64)
    }

    /// Whether the secret should be considered expired at the given time.
    pub fn is_expired_at(&self, now: u64) -> (expired: bool)
        requires
            self.spec_expires_at() <= u64::MAX,
        ensures
            expired == (now >= self.spec_expires_at()),
    {
        now >= self.expires_at()
    }

    /// Mark the secret as having been read at the provided instant.
    pub fn mark_read(&mut self, when: u64)
        ensures
            *final(self) == (Secret { read_at: Some(when), ..*old(self) }),
    {
        self.read_at = Some(when);
    }
}

} // verus!
