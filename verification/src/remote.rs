//! Decision logic of the remote key-value backend.
//!
//! The remote backend serialises each secret to a self-describing document
//! and writes it under a namespaced key whose expiry the backend enforces
//! natively; one-time reads delete the key after a successful fetch. The
//! network round trips live outside this crate. What is decided here — the
//! record to write, the key and expiry to write it under, and what a fetch
//! outcome means — is verified, so that the remote backend observes the
//! same semantics as the in-process one.

use crate::ids;
use crate::models::{Secret, MAX_TTL_SECS};
use crate::store::marked_read;
use vstd::prelude::*;
use vstd::string::StringExecFns;

verus! {

/// The key namespace of the remote backend: a record with identifier `id`
/// lives under `key_prefix + id`.
pub struct RemoteKeySpace {
    pub key_prefix: String,
}

/// A prepared write: the full record, the namespaced key to write it
/// under, and the native expiry to set on that key.
pub struct RemoteWrite {
    pub secret: Secret,
    pub key: String,
    pub expire_secs: u64,
}

impl RemoteKeySpace {
    /// The namespace used in production.
    pub fn new() -> (r: Self)
        ensures
            r.key_prefix@ == "secret:"@,
    {
        RemoteKeySpace { key_prefix: "secret:".to_owned() }
    }

    /// A namespace with an explicit prefix, primarily to isolate keys in
    /// tests.
    pub fn with_prefix(key_prefix: String) -> (r: Self)
        ensures
            r.key_prefix == key_prefix,
    {
        RemoteKeySpace { key_prefix }
    }

    /// The backend key a given identifier is stored under.
    pub fn make_key(&self, id: &str) -> (k: String)
        ensures
            k@ == self.key_prefix@ + id@,
    {
        self.key_prefix.clone().concat(id)
    }

    /// Build everything the remote write of a new secret needs: the record
    /// created at `now`, its namespaced key, and a native expiry of exactly
    /// the record's time-to-live, so that the backend drops the key
    /// `ttl_secs` seconds after the write.
    pub fn prepare_store_at(&self, ciphertext: String, iv: String, ttl_secs: u32, now: u64) -> (w:
        RemoteWrite)
        requires
            1 <= ttl_secs <= MAX_TTL_SECS,
            now + ttl_secs <= u64::MAX,
        ensures
            w.secret.wf(),
            w.secret.ciphertext == ciphertext,
            w.secret.iv == iv,
            w.secret.ttl_secs == ttl_secs,
            w.secret.created_at == now,
            w.secret.read_at is None,
            w.secret.id@.len() == 22,
            ids::is_url_safe(w.secret.id@),
            w.key@ == self.key_prefix@ + w.secret.id@,
            w.expire_secs == ttl_secs,
    {
        let secret = Secret::new_at(ciphertext, iv, ttl_secs, now);
        let key = self.make_key(secret.id.as_str());
        RemoteWrite { secret, key, expire_secs: ttl_secs as u64 }
    }
}

/// The meaning of a remote fetch during a one-time read: the backend
/// enforces expiry authoritatively, so a fetched record is returned as is,
/// stamped as read at `now`; a missing key — never written, already
/// deleted, or expired by the backend — reads as absent. The caller must
/// delete the key exactly when a record is returned.
pub fn finish_read_at(fetched: Option<Secret>, now: u64) -> (r: Option<Secret>)
    ensures
        r == (match fetched {
            Some(s) => Some(marked_read(s, now)),
            None => None::<Secret>,
        }),
{
    match fetched {
        Some(mut s) => {
            s.mark_read(now);
            Some(s)
        },
        None => None,
    }
}

} // verus!
