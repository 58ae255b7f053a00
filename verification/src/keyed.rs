//! Sequences of records addressed by a string key, viewed as maps.
//!
//! Both shared tables of the service — the secret store's id-to-record
//! table and the rate limiter's identity-to-bucket table — are vectors of
//! records with pairwise distinct keys. This module gives such a sequence
//! its mathematical reading, a `Map` from key to record, and proves how the
//! map changes when the sequence is updated in place, extended, or has an
//! element removed.

use vstd::prelude::*;

verus! {

/// A record that carries its own key.
pub trait Keyed {
    /// The key under which the record is addressed.
    spec fn key(&self) -> Seq<char>;
}

/// No two records of the sequence share a key.
pub open spec fn distinct_keys<T: Keyed>(entries: Seq<T>) -> bool {
    forall|i: int, j: int|
        0 <= i < j < entries.len() ==> entries[i].key() != entries[j].key()
}

/// The map reading of the sequence: each key to its record. When a key
/// repeats, the later record wins, which is irrelevant under `distinct_keys`.
pub open spec fn as_key_map<T: Keyed>(entries: Seq<T>) -> Map<Seq<char>, T>
    decreases entries.len(),
{
    if entries.len() == 0 {
        Map::empty()
    } else {
        as_key_map(entries.drop_last()).insert(entries.last().key(), entries.last())
    }
}

/// A prefix of a sequence with distinct keys has distinct keys.
pub proof fn lemma_distinct_drop_last<T: Keyed>(entries: Seq<T>)
    requires
        distinct_keys(entries),
        entries.len() > 0,
    ensures
        distinct_keys(entries.drop_last()),
{
    assert forall|i: int, j: int|
        0 <= i < j < entries.drop_last().len() implies entries.drop_last()[i].key()
        != entries.drop_last()[j].key() by {
        assert(entries.drop_last()[i] == entries[i]);
        assert(entries.drop_last()[j] == entries[j]);
    }
}

/// The map contains a key exactly when some record of the sequence bears it.
pub proof fn lemma_key_map_contains<T: Keyed>(entries: Seq<T>, k: Seq<char>)
    ensures
        as_key_map(entries).contains_key(k) <==> exists|i: int|
            0 <= i < entries.len() && entries[i].key() == k,
    decreases entries.len(),
{
    if entries.len() > 0 {
        lemma_key_map_contains(entries.drop_last(), k);
        let last_i = entries.len() - 1;
        if entries[last_i].key() == k {
            assert(entries.last().key() == k);
        } else {
            if exists|i: int| 0 <= i < entries.len() && entries[i].key() == k {
                let i = choose|i: int| 0 <= i < entries.len() && entries[i].key() == k;
                assert(entries.drop_last()[i] == entries[i]);
                assert(entries.drop_last()[i].key() == k);
            }
            if exists|i: int| 0 <= i < entries.drop_last().len() && entries.drop_last()[i].key() == k {
                let i = choose|i: int|
                    0 <= i < entries.drop_last().len() && entries.drop_last()[i].key() == k;
                assert(entries[i] == entries.drop_last()[i]);
            }
        }
    }
}

/// Under distinct keys, the map sends each record's key to that record.
pub proof fn lemma_key_map_get<T: Keyed>(entries: Seq<T>, i: int)
    requires
        distinct_keys(entries),
        0 <= i < entries.len(),
    ensures
        as_key_map(entries).contains_key(entries[i].key()),
        as_key_map(entries)[entries[i].key()] == entries[i],
    decreases entries.len(),
{
    if i == entries.len() - 1 {
        assert(entries.last() == entries[i]);
    } else {
        lemma_distinct_drop_last(entries);
        assert(entries.drop_last()[i] == entries[i]);
        lemma_key_map_get(entries.drop_last(), i);
        assert(entries[i].key() != entries[entries.len() - 1].key());
        assert(entries.last() == entries[entries.len() - 1]);
    }
}

/// Replacing the record at an index by one with the same key reads as a map
/// insert of the new record, and keeps the keys distinct.
pub proof fn lemma_key_map_update<T: Keyed>(entries: Seq<T>, i: int, v: T)
    requires
        distinct_keys(entries),
        0 <= i < entries.len(),
        v.key() == entries[i].key(),
    ensures
        distinct_keys(entries.update(i, v)),
        as_key_map(entries.update(i, v)) == as_key_map(entries).insert(v.key(), v),
    decreases entries.len(),
{
    let upd = entries.update(i, v);
    assert forall|a: int, b: int|
        0 <= a < b < upd.len() implies upd[a].key() != upd[b].key() by {
        assert(upd[a].key() == entries[a].key());
        assert(upd[b].key() == entries[b].key());
    }
    if i == entries.len() - 1 {
        assert(upd.drop_last() =~= entries.drop_last());
        assert(upd.last() == v);
        assert(as_key_map(upd) =~= as_key_map(entries).insert(v.key(), v));
    } else {
        lemma_distinct_drop_last(entries);
        assert(entries.drop_last()[i] == entries[i]);
        lemma_key_map_update(entries.drop_last(), i, v);
        assert(upd.drop_last() =~= entries.drop_last().update(i, v));
        assert(upd.last() == entries.last());
        assert(v.key() != entries.last().key());
        assert(as_key_map(upd) =~= as_key_map(entries).insert(v.key(), v));
    }
}

/// Appending a record with an unseen key reads as a map insert, and keeps
/// the keys distinct.
pub proof fn lemma_key_map_push<T: Keyed>(entries: Seq<T>, v: T)
    requires
        distinct_keys(entries),
        forall|i: int| 0 <= i < entries.len() ==> entries[i].key() != v.key(),
    ensures
        distinct_keys(entries.push(v)),
        as_key_map(entries.push(v)) == as_key_map(entries).insert(v.key(), v),
{
    let ext = entries.push(v);
    assert forall|a: int, b: int|
        0 <= a < b < ext.len() implies ext[a].key() != ext[b].key() by {
        if b == entries.len() {
            assert(ext[a] == entries[a]);
            assert(ext[b] == v);
        } else {
            assert(ext[a] == entries[a]);
            assert(ext[b] == entries[b]);
        }
    }
    assert(ext.drop_last() =~= entries);
    assert(ext.last() == v);
    assert(as_key_map(ext) == as_key_map(entries).insert(v.key(), v));
}

/// Removing the record at an index reads as a map remove of its key, and
/// keeps the keys distinct.
pub proof fn lemma_key_map_remove<T: Keyed>(entries: Seq<T>, i: int)
    requires
        distinct_keys(entries),
        0 <= i < entries.len(),
    ensures
        distinct_keys(entries.remove(i)),
        as_key_map(entries.remove(i)) == as_key_map(entries).remove(entries[i].key()),
    decreases entries.len(),
{
    let rem = entries.remove(i);
    entries.remove_ensures(i);
    assert forall|a: int, b: int|
        0 <= a < b < rem.len() implies rem[a].key() != rem[b].key() by {
        if a < i {
            assert(rem[a] == entries[a]);
        } else {
            assert(rem[a] == entries[a + 1]);
        }
        if b < i {
            assert(rem[b] == entries[b]);
        } else {
            assert(rem[b] == entries[b + 1]);
        }
    }
    if i == entries.len() - 1 {
        assert(rem =~= entries.drop_last());
        lemma_key_map_contains(entries.drop_last(), entries[i].key());
        assert forall|j: int|
            0 <= j < entries.drop_last().len() implies entries.drop_last()[j].key()
            != entries[i].key() by {
            assert(entries.drop_last()[j] == entries[j]);
        }
        assert(!as_key_map(entries.drop_last()).contains_key(entries[i].key()));
        assert(entries.last() == entries[i]);
        assert(as_key_map(rem) =~= as_key_map(entries).remove(entries[i].key()));
    } else {
        lemma_distinct_drop_last(entries);
        assert(entries.drop_last()[i] == entries[i]);
        lemma_key_map_remove(entries.drop_last(), i);
        entries.drop_last().remove_ensures(i);
        assert(rem.drop_last() =~= entries.drop_last().remove(i));
        assert(rem.len() == entries.len() - 1);
        assert(rem.last() == entries[entries.len() - 1]);
        assert(rem.last() == entries.last());
        assert(entries[i].key() != entries.last().key());
        assert(as_key_map(rem) =~= as_key_map(entries).remove(entries[i].key()));
    }
}

} // verus!
