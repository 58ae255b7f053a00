//! Per-identity fixed-window admission control.
//!
//! Each identity owns a bucket of `window_start` and `count`. A check rolls
//! the bucket to a fresh window when more than the window length has passed
//! since `window_start` (a hard reset, not a sliding average), then admits
//! and counts the request only while the count is below the limit. A denied
//! check changes nothing but the roll. The laws at the end state the
//! admit-then-deny and window-reset behaviour over the same spec functions
//! the contracts use.

use crate::clock;
use crate::keyed;
use crate::keyed::Keyed;
use vstd::prelude::*;

verus! {

/// One identity's standing within its current window.
#[derive(Clone, Copy, Debug, PartialEq, Eq)]
pub struct RateBucket {
    /// Start of the window the count belongs to, in seconds since the epoch.
    pub window_start: u64,
    /// Requests admitted since `window_start`.
    pub count: u32,
}

/// A bucket together with the identity that owns it.
pub struct BucketEntry {
    pub identity: String,
    pub bucket: RateBucket,
}

impl Keyed for BucketEntry {
    /// A bucket is addressed by the identity that owns it.
    open spec fn key(&self) -> Seq<char> {
        self.identity@
    }
}

/// Seconds passed from `window_start` to `now`; zero when the clock reads
/// earlier than the window's start.
pub open spec fn spec_elapsed(window_start: u64, now: u64) -> int {
    if now >= window_start {
        now - window_start
    } else {
        0
    }
}

/// The bucket an identity starts with: a window opening now, nothing counted.
pub open spec fn fresh_bucket(now: u64) -> RateBucket {
    RateBucket { window_start: now, count: 0 }
}

/// The bucket a check works on: the stored one, or a fresh one for an
/// identity seen for the first time.
pub open spec fn bucket_seen(b: Option<RateBucket>, now: u64) -> RateBucket {
    match b {
        Some(x) => x,
        None => fresh_bucket(now),
    }
}

/// The bucket after the window test: reset when more than `window_secs` has
/// passed since its start, untouched otherwise.
pub open spec fn bucket_rolled(b: RateBucket, now: u64, window_secs: u64) -> RateBucket {
    if spec_elapsed(b.window_start, now) > window_secs {
        fresh_bucket(now)
    } else {
        b
    }
}

/// Whether a check of an identity whose stored bucket is `b` is admitted at
/// `now`: after the window test, its count lies below the limit.
pub open spec fn spec_allowed(b: Option<RateBucket>, now: u64, window_secs: u64, max: u32) -> bool {
    bucket_rolled(bucket_seen(b, now), now, window_secs).count < max
}

/// The bucket stored after a check: rolled, and counted up exactly when the
/// check was admitted.
pub open spec fn bucket_after(b: Option<RateBucket>, now: u64, window_secs: u64, max: u32) -> RateBucket {
    let r = bucket_rolled(bucket_seen(b, now), now, window_secs);
    if r.count < max {
        RateBucket { window_start: r.window_start, count: (r.count + 1) as u32 }
    } else {
        r
    }
}

/// The bucket stored under `k`, if any.
pub open spec fn spec_lookup(m: Map<Seq<char>, RateBucket>, k: Seq<char>) -> Option<RateBucket> {
    if m.contains_key(k) {
        Some(m[k])
    } else {
        None
    }
}

/// Fixed-window counter over all identities; all state lives in `buckets`.
pub struct RateLimiter {
    /// Requests admitted per identity within one window.
    pub max_requests_per_window: u32,
    /// Window length in seconds.
    pub window_secs: u64,
    /// One entry per identity seen, keys pairwise distinct.
    pub buckets: Vec<BucketEntry>,
}

impl View for RateLimiter {
    type V = Map<Seq<char>, RateBucket>;

    /// The identity-to-bucket table the limiter holds.
    open spec fn view(&self) -> Map<Seq<char>, RateBucket> {
        keyed::as_key_map(self.buckets@).map_values(|e: BucketEntry| e.bucket)
    }
}

impl RateLimiter {
    /// Well-formed limiter: pairwise distinct identities.
    pub open spec fn wf(self) -> bool {
        keyed::distinct_keys(self.buckets@)
    }

    /// A limiter with the given limit and window and no identity seen yet.
    pub fn new(max_requests_per_window: u32, window_secs: u64) -> (r: Self)
        ensures
            r.wf(),
            r.max_requests_per_window == max_requests_per_window,
            r.window_secs == window_secs,
            r@ == Map::<Seq<char>, RateBucket>::empty(),
    {
        let r = RateLimiter { max_requests_per_window, window_secs, buckets: Vec::new() };
        proof {
            assert(r@ =~= Map::<Seq<char>, RateBucket>::empty());
        }
        r
    }

    /// The index of the entry owned by `identity`, if any.
    fn find_index(&self, identity: &String) -> (r: Option<usize>)
        ensures
            match r {
                Some(i) => i < self.buckets@.len() && self.buckets@[i as int].identity@
                    == identity@,
                None => forall|j: int|
                    0 <= j < self.buckets@.len() ==> self.buckets@[j].identity@ != identity@,
            },
    {
        let mut i: usize = 0;
        while i < self.buckets.len()
            invariant
                i <= self.buckets@.len(),
                forall|j: int| 0 <= j < i ==> self.buckets@[j].identity@ != identity@,
            decreases self.buckets@.len() - i,
        {
            if self.buckets[i].identity == *identity {
                return Some(i);
            }
            i = i + 1;
        }
        None
    }

    /// Apply the window test to a bucket.
    fn roll(b: RateBucket, now: u64, window_secs: u64) -> (r: RateBucket)
        ensures
            r == bucket_rolled(b, now, window_secs),
    {
        let elapsed = if now >= b.window_start {
            now - b.window_start
        } else {
            0
        };
        if elapsed > window_secs {
            RateBucket { window_start: now, count: 0 }
        } else {
            b
        }
    }

    /// Admission check against the clock value `now`: look the identity's
    /// bucket up (creating it lazily), roll its window, and admit the
    /// request exactly when the rolled count lies below the limit. The
    /// bucket is stored back counted up when admitted, merely rolled when
    /// denied; no other identity's bucket changes.
    pub fn check_at(&mut self, identity: &str, now: u64) -> (allowed: bool)
        requires
            old(self).wf(),
        ensures
            final(self).wf(),
            final(self).max_requests_per_window == old(self).max_requests_per_window,
            final(self).window_secs == old(self).window_secs,
            allowed == spec_allowed(
                spec_lookup(old(self)@, identity@),
                now,
                old(self).window_secs,
                old(self).max_requests_per_window,
            ),
            final(self)@ == old(self)@.insert(
                identity@,
                bucket_after(
                    spec_lookup(old(self)@, identity@),
                    now,
                    old(self).window_secs,
                    old(self).max_requests_per_window,
                ),
            ),
    {
        let ghost entries0 = self.buckets@;
        let ghost m0 = self@;
        let id_owned = identity.to_owned();
        match self.find_index(&id_owned) {
            Some(i) => {
                proof {
                    keyed::lemma_key_map_get(entries0, i as int);
                }
                let existing = self.buckets[i].bucket;
                assert(spec_lookup(m0, identity@) == Some(existing));
                let rolled = Self::roll(existing, now, self.window_secs);
                let allowed = rolled.count < self.max_requests_per_window;
                let updated = if allowed {
                    RateBucket { window_start: rolled.window_start, count: rolled.count + 1 }
                } else {
                    rolled
                };
                let entry = BucketEntry { identity: id_owned, bucket: updated };
                proof {
                    keyed::lemma_key_map_update(entries0, i as int, entry);
                }
                let _replaced = self.buckets.remove(i);
                self.buckets.insert(i, entry);
                proof {
                    entries0.remove_ensures(i as int);
                    assert(self.buckets@ =~= entries0.update(i as int, entry));
                    assert(self@ =~= m0.insert(identity@, updated));
                }
                allowed
            },
            None => {
                assert(spec_lookup(m0, identity@) is None) by {
                    keyed::lemma_key_map_contains(entries0, identity@);
                }
                let allowed = self.max_requests_per_window > 0;
                let updated = if allowed {
                    RateBucket { window_start: now, count: 1 }
                } else {
                    RateBucket { window_start: now, count: 0 }
                };
                let entry = BucketEntry { identity: id_owned, bucket: updated };
                proof {
                    keyed::lemma_key_map_push(entries0, entry);
                }
                self.buckets.push(entry);
                proof {
                    assert(self@ =~= m0.insert(identity@, updated));
                }
                allowed
            },
        }
    }

    /// Admission check against the current time.
    pub fn check(&mut self, identity: &str) -> (allowed: bool)
        requires
            old(self).wf(),
        ensures
            final(self).wf(),
            final(self).max_requests_per_window == old(self).max_requests_per_window,
            final(self).window_secs == old(self).window_secs,
            exists|now: u64|
                allowed == spec_allowed(
                    spec_lookup(old(self)@, identity@),
                    now,
                    old(self).window_secs,
                    old(self).max_requests_per_window,
                ) && final(self)@ == old(self)@.insert(
                    identity@,
                    bucket_after(
                        spec_lookup(old(self)@, identity@),
                        now,
                        old(self).window_secs,
                        old(self).max_requests_per_window,
                    ),
                ),
    {
        let now = clock::now_unix();
        let allowed = self.check_at(identity, now);
        allowed
    }
}

/// The bucket an identity holds after a run of checks at the given times,
/// starting from `b` (each check applied in order).
pub open spec fn bucket_run(
    b: Option<RateBucket>,
    times: Seq<u64>,
    window_secs: u64,
    max: u32,
) -> Option<RateBucket>
    decreases times.len(),
{
    if times.len() == 0 {
        b
    } else {
        Some(
            bucket_after(bucket_run(b, times.drop_last(), window_secs, max), times.last(), window_secs, max),
        )
    }
}

/// Within the window, a check below the limit is admitted and adds exactly
/// one to the count.
pub proof fn lemma_allow_below_limit(b: RateBucket, now: u64, window_secs: u64, max: u32)
    requires
        spec_elapsed(b.window_start, now) <= window_secs,
        b.count < max,
    ensures
        spec_allowed(Some(b), now, window_secs, max),
        bucket_after(Some(b), now, window_secs, max) == (RateBucket {
            window_start: b.window_start,
            count: (b.count + 1) as u32,
        }),
{
}

/// Within the window, once the count has reached the limit a check is
/// denied and the bucket is left exactly as it was.
pub proof fn lemma_deny_when_full(b: RateBucket, now: u64, window_secs: u64, max: u32)
    requires
        spec_elapsed(b.window_start, now) <= window_secs,
        b.count >= max,
    ensures
        !spec_allowed(Some(b), now, window_secs, max),
        bucket_after(Some(b), now, window_secs, max) == b,
{
}

/// Window reset: once more than the window length has passed since the
/// bucket's start, the next check is admitted again (provided the limit
/// admits any request at all) and the bucket restarts with a count of one.
pub proof fn lemma_window_reset(b: RateBucket, now: u64, window_secs: u64, max: u32)
    requires
        spec_elapsed(b.window_start, now) > window_secs,
        max >= 1,
    ensures
        spec_allowed(Some(b), now, window_secs, max),
        bucket_after(Some(b), now, window_secs, max) == (RateBucket { window_start: now, count: 1 }),
{
}

/// A run of checks by a fresh identity, all within the window opened by the
/// first check, counts exactly the admitted requests: the bucket keeps the
/// first check's window and its count is the number of checks, capped at
/// the limit.
pub proof fn lemma_fixed_window_counts(times: Seq<u64>, window_secs: u64, max: u32)
    requires
        times.len() >= 1,
        forall|i: int| 0 <= i < times.len() ==> spec_elapsed(times[0], #[trigger] times[i]) <= window_secs,
    ensures
        bucket_run(None, times, window_secs, max) == (Some(
            RateBucket {
                window_start: times[0],
                count: if times.len() <= max { times.len() as u32 } else { max },
            },
        )),
    decreases times.len(),
{
    if times.len() == 1 {
        assert(times.last() == times[0]);
    } else {
        let prefix = times.drop_last();
        assert(prefix[0] == times[0]);
        assert forall|i: int| 0 <= i < prefix.len() implies spec_elapsed(
            prefix[0],
            #[trigger] prefix[i],
        ) <= window_secs by {
            assert(prefix[i] == times[i]);
        }
        lemma_fixed_window_counts(prefix, window_secs, max);
        assert(spec_elapsed(times[0], times.last()) <= window_secs) by {
            assert(times.last() == times[times.len() - 1]);
        }
    }
}

/// Admit then deny: a fresh identity checking repeatedly within one window
/// is admitted on exactly its first `max` checks and denied from then on.
pub proof fn lemma_allow_then_deny(times: Seq<u64>, window_secs: u64, max: u32, i: int)
    requires
        0 <= i < times.len(),
        forall|j: int| 0 <= j <= i ==> spec_elapsed(times[0], #[trigger] times[j]) <= window_secs,
    ensures
        spec_allowed(
            bucket_run(None, times.take(i), window_secs, max),
            times[i],
            window_secs,
            max,
        ) == (i < max),
{
    if i == 0 {
        assert(times.take(0).len() == 0);
    } else {
        let prefix = times.take(i);
        assert(prefix.len() == i);
        assert(prefix[0] == times[0]);
        assert forall|j: int| 0 <= j < prefix.len() implies spec_elapsed(
            prefix[0],
            #[trigger] prefix[j],
        ) <= window_secs by {
            assert(prefix[j] == times[j]);
        }
        lemma_fixed_window_counts(prefix, window_secs, max);
        assert(spec_elapsed(times[0], times[i]) <= window_secs);
    }
}

} // verus!
