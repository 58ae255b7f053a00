//! The in-process secret store.
//!
//! A table from identifier to `Secret`, read as a `Map` in every contract.
//! `store_secret` persists a freshly created record; `get_and_delete_secret`
//! atomically removes the record and returns it only when it exists and has
//! not expired — "never existed", "already read" and "expired" all collapse
//! to one `None` outcome, so a caller cannot tell them apart. The laws at
//! the end state the round-trip, one-time-read and expiry guarantees over
//! the same spec functions the contracts use.

use crate::clock;
use crate::ids;
use crate::keyed;
use crate::models::{Secret, MAX_TTL_SECS};
use vstd::prelude::*;

verus! {

/// Errors that can occur when interacting with a secret storage backend.
#[derive(Debug)]
pub enum StorageError {
    /// A generic backend error with a human-readable message.
    Backend(String),
}

pub type StorageResult<T> = Result<T, StorageError>;

/// The record as it looks after its first read at `now`.
pub open spec fn marked_read(s: Secret, now: u64) -> Secret {
    Secret { read_at: Some(now), ..s }
}

/// What a read of `id` at time `now` returns from the table `m`: the stored
/// record, stamped as read, exactly when it is present and not yet expired;
/// `None` otherwise.
pub open spec fn spec_get_result(m: Map<Seq<char>, Secret>, id: Seq<char>, now: u64) -> Option<
    Secret,
> {
    if m.contains_key(id) {
        if now < m[id].created_at + m[id].ttl_secs {
            Some(marked_read(m[id], now))
        } else {
            None
        }
    } else {
        None
    }
}

/// The table after a read of `id`: the entry is gone whether the read
/// succeeded or found the record expired.
pub open spec fn spec_get_state(m: Map<Seq<char>, Secret>, id: Seq<char>) -> Map<Seq<char>, Secret> {
    m.remove(id)
}

/// In-process implementation of the secret store.
pub struct InMemorySecretStore {
    pub entries: Vec<Secret>,
}

impl View for InMemorySecretStore {
    type V = Map<Seq<char>, Secret>;

    open spec fn view(&self) -> Map<Seq<char>, Secret> {
        keyed::as_key_map(self.entries@)
    }
}

impl InMemorySecretStore {
    /// Well-formed store: pairwise distinct identifiers, every record
    /// well-formed. Established by `new`, preserved by every method.
    pub open spec fn wf(self) -> bool {
        &&& keyed::distinct_keys(self.entries@)
        &&& forall|i: int| 0 <= i < self.entries@.len() ==> (#[trigger] self.entries@[i]).wf()
    }

    /// An empty store.
    pub fn new() -> (s: Self)
        ensures
            s.wf(),
            s@ == Map::<Seq<char>, Secret>::empty(),
    {
        InMemorySecretStore { entries: Vec::new() }
    }

    /// The index of the record bearing `id`, if any.
    fn find_index(&self, id: &String) -> (r: Option<usize>)
        ensures
            match r {
                Some(i) => i < self.entries@.len() && self.entries@[i as int].id@ == id@,
                None => forall|j: int| 0 <= j < self.entries@.len() ==> self.entries@[j].id@ != id@,
            },
    {
        let mut i: usize = 0;
        while i < self.entries.len()
            invariant
                i <= self.entries@.len(),
                forall|j: int| 0 <= j < i ==> self.entries@[j].id@ != id@,
            decreases self.entries@.len() - i,
        {
            if self.entries[i].id == *id {
                return Some(i);
            }
            i = i + 1;
        }
        None
    }

    /// Insert `secret` under its id, replacing any record that bears it.
    fn put(&mut self, secret: Secret)
        requires
            old(self).wf(),
            secret.wf(),
        ensures
            final(self).wf(),
            final(self)@ == old(self)@.insert(secret.id@, secret),
    {
        let ghost entries0 = self.entries@;
        match self.find_index(&secret.id) {
            Some(i) => {
                proof {
                    keyed::lemma_key_map_update(entries0, i as int, secret);
                }
                let _replaced = self.entries.remove(i);
                self.entries.insert(i, secret);
                proof {
                    entries0.remove_ensures(i as int);
                    assert(self.entries@ =~= entries0.update(i as int, secret));
                }
            },
            None => {
                proof {
                    keyed::lemma_key_map_push(entries0, secret);
                }
                self.entries.push(secret);
            },
        }
    }

    /// Persist a new secret created at `now` and return the full record.
    /// The in-process backend cannot fail: the result is always `Ok`.
    pub fn store_secret_at(
        &mut self,
        ciphertext: String,
        iv: String,
        ttl_secs: u32,
        now: u64,
    ) -> (r: StorageResult<Secret>)
        requires
            old(self).wf(),
            1 <= ttl_secs <= MAX_TTL_SECS,
            now + ttl_secs <= u64::MAX,
        ensures
            final(self).wf(),
            r is Ok,
            (r->Ok_0).wf(),
            (r->Ok_0).ciphertext == ciphertext,
            (r->Ok_0).iv == iv,
            (r->Ok_0).ttl_secs == ttl_secs,
            (r->Ok_0).created_at == now,
            (r->Ok_0).read_at is None,
            (r->Ok_0).id@.len() == 22,
            ids::is_url_safe((r->Ok_0).id@),
            final(self)@ == old(self)@.insert((r->Ok_0).id@, r->Ok_0),
    {
        let secret = Secret::new_at(ciphertext, iv, ttl_secs, now);
        let stored = Secret {
            id: secret.id.clone(),
            ciphertext: secret.ciphertext.clone(),
            iv: secret.iv.clone(),
            created_at: secret.created_at,
            ttl_secs: secret.ttl_secs,
            read_at: secret.read_at,
        };
        assert(stored == secret);
        self.put(stored);
        Ok(secret)
    }

    /// Persist a new secret created at the current time.
    pub fn store_secret(&mut self, ciphertext: String, iv: String, ttl_secs: u32) -> (r:
        StorageResult<Secret>)
        requires
            old(self).wf(),
            1 <= ttl_secs <= MAX_TTL_SECS,
        ensures
            final(self).wf(),
            r is Ok,
            (r->Ok_0).wf(),
            (r->Ok_0).ciphertext == ciphertext,
            (r->Ok_0).iv == iv,
            (r->Ok_0).ttl_secs == ttl_secs,
            (r->Ok_0).read_at is None,
            (r->Ok_0).id@.len() == 22,
            ids::is_url_safe((r->Ok_0).id@),
            final(self)@ == old(self)@.insert((r->Ok_0).id@, r->Ok_0),
    {
        let now = clock::now_unix();
        self.store_secret_at(ciphertext, iv, ttl_secs, now)
    }

    /// Atomically look `id` up, remove it, and — only when present and not
    /// expired at `now` — return the record stamped as read at `now`.
    /// The in-process backend cannot fail: the result is always `Ok`.
    pub fn get_and_delete_secret_at(&mut self, id: &str, now: u64) -> (r: StorageResult<
        Option<Secret>,
    >)
        requires
            old(self).wf(),
        ensures
            final(self).wf(),
            r == Ok::<Option<Secret>, StorageError>(spec_get_result(old(self)@, id@, now)),
            final(self)@ == spec_get_state(old(self)@, id@),
    {
        let ghost entries0 = self.entries@;
        let id_owned = id.to_owned();
        match self.find_index(&id_owned) {
            Some(i) => {
                proof {
                    keyed::lemma_key_map_get(entries0, i as int);
                    keyed::lemma_key_map_remove(entries0, i as int);
                    entries0.remove_ensures(i as int);
                }
                let mut secret = self.entries.remove(i);
                if secret.is_expired_at(now) {
                    Ok(None)
                } else {
                    secret.mark_read(now);
                    Ok(Some(secret))
                }
            },
            None => {
                proof {
                    keyed::lemma_key_map_contains(entries0, id@);
                    assert(old(self)@.remove(id@) =~= old(self)@);
                }
                Ok(None)
            },
        }
    }

    /// Atomically look `id` up, remove it, and return it when it is still
    /// retrievable at the current time.
    pub fn get_and_delete_secret(&mut self, id: &str) -> (r: StorageResult<Option<Secret>>)
        requires
            old(self).wf(),
        ensures
            final(self).wf(),
            r is Ok,
            exists|now: u64| r->Ok_0 == spec_get_result(old(self)@, id@, now),
            final(self)@ == spec_get_state(old(self)@, id@),
    {
        let now = clock::now_unix();
        let r = self.get_and_delete_secret_at(id, now);
        assert(r->Ok_0 == spec_get_result(old(self)@, id@, now));
        r
    }

    /// Liveness check; the in-process backend is always reachable.
    pub fn ping(&self) -> (r: StorageResult<()>)
        ensures
            r is Ok,
    {
        Ok(())
    }
}

/// Round trip: storing a valid record and reading it back at once under its
/// fresh id yields the same ciphertext, initialisation vector and
/// time-to-live, stamped as read.
pub proof fn lemma_round_trip(m: Map<Seq<char>, Secret>, s: Secret, now: u64)
    requires
        s.ttl_valid(),
        s.created_at == now,
    ensures
        spec_get_result(m.insert(s.id@, s), s.id@, now) == Some(marked_read(s, now)),
{
}

/// One-time read: once a read of `id` has been answered — whatever the
/// answer — every later read of `id` from the resulting table finds nothing.
pub proof fn lemma_one_time_read(m: Map<Seq<char>, Secret>, id: Seq<char>, now: u64)
    ensures
        spec_get_result(spec_get_state(m, id), id, now) is None,
{
}

/// Expiry: a record whose time-to-live has elapsed is never returned, even
/// if it was never read.
pub proof fn lemma_ttl_expiry(m: Map<Seq<char>, Secret>, id: Seq<char>, now: u64)
    requires
        m.contains_key(id),
        now >= m[id].created_at + m[id].ttl_secs,
    ensures
        spec_get_result(m, id, now) is None,
{
}

/// Of two consecutive reads of the same id, at most one can return the
/// secret, whatever times they observe.
pub proof fn lemma_single_winner(m: Map<Seq<char>, Secret>, id: Seq<char>, now1: u64, now2: u64)
    ensures
        !(spec_get_result(m, id, now1) is Some && spec_get_result(
            spec_get_state(m, id),
            id,
            now2,
        ) is Some),
{
}

} // verus!
