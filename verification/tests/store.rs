use std::collections::HashSet;

use cendre_backend::store::InMemorySecretStore;

#[test]
fn in_memory_store_respects_ttl_on_read() {
    let mut store = InMemorySecretStore::new();
    let secret = store
        .store_secret_at("ciphertext".into(), "iv".into(), 1, 0)
        .expect("store_secret should succeed");

    // Read only after the one-second TTL has fully elapsed.
    let result = store
        .get_and_delete_secret_at(&secret.id, 1)
        .expect("get must succeed");

    assert!(
        result.is_none(),
        "secret should be treated as expired when TTL elapsed"
    );
}

#[test]
fn in_memory_store_returns_secret_once_when_not_expired() {
    let mut store = InMemorySecretStore::new();
    let secret = store
        .store_secret_at("ciphertext".into(), "iv".into(), 3600, 100)
        .expect("store_secret should succeed");

    let first = store
        .get_and_delete_secret_at(&secret.id, 100)
        .expect("first read must succeed");
    assert!(first.is_some(), "first read should return the secret");

    let second = store
        .get_and_delete_secret_at(&secret.id, 100)
        .expect("second read must succeed");
    assert!(
        second.is_none(),
        "secret should be removed after first successful read"
    );
}

#[test]
fn store_then_read_round_trips_the_payload() {
    let mut store = InMemorySecretStore::new();
    let stored = store
        .store_secret_at("ctext".into(), "iv-val".into(), 60, 1000)
        .expect("store_secret should succeed");
    assert_eq!(stored.ciphertext, "ctext");
    assert_eq!(stored.iv, "iv-val");
    assert_eq!(stored.ttl_secs, 60);
    assert!(stored.read_at.is_none());

    let read = store
        .get_and_delete_secret_at(&stored.id, 1001)
        .expect("get must succeed")
        .expect("secret should be retrievable before expiry");
    assert_eq!(read.id, stored.id);
    assert_eq!(read.ciphertext, "ctext");
    assert_eq!(read.iv, "iv-val");
    assert_eq!(read.ttl_secs, 60);
    assert_eq!(read.read_at, Some(1001));

    let again = store
        .get_and_delete_secret_at(&stored.id, 1002)
        .expect("get must succeed");
    assert!(again.is_none(), "a second read must find nothing");
}

#[test]
fn read_of_unknown_id_reports_absent() {
    let mut store = InMemorySecretStore::new();
    let result = store
        .get_and_delete_secret_at("does-not-exist", 0)
        .expect("get must succeed");
    assert!(result.is_none());
}

#[test]
fn expired_read_consumes_the_entry() {
    let mut store = InMemorySecretStore::new();
    let secret = store
        .store_secret_at("ciphertext".into(), "iv".into(), 10, 0)
        .expect("store_secret should succeed");

    // The expired lookup reports absent and removes the entry...
    let expired = store
        .get_and_delete_secret_at(&secret.id, 10)
        .expect("get must succeed");
    assert!(expired.is_none());

    // ...so an earlier clock on a later call cannot resurrect it.
    let after = store
        .get_and_delete_secret_at(&secret.id, 0)
        .expect("get must succeed");
    assert!(after.is_none());
}

#[test]
fn read_just_before_expiry_succeeds() {
    let mut store = InMemorySecretStore::new();
    let secret = store
        .store_secret_at("ciphertext".into(), "iv".into(), 10, 0)
        .expect("store_secret should succeed");

    let result = store
        .get_and_delete_secret_at(&secret.id, 9)
        .expect("get must succeed");
    assert!(result.is_some(), "secret should exist before expiry");
}

#[test]
fn stored_ids_are_distinct_and_url_safe() {
    let mut store = InMemorySecretStore::new();
    let mut ids: HashSet<String> = HashSet::new();
    for i in 0..10_000u64 {
        let secret = store
            .store_secret_at("c".into(), "i".into(), 3600, i)
            .expect("store_secret should succeed");
        assert_eq!(secret.id.len(), 22);
        assert!(
            secret
                .id
                .chars()
                .all(|c| c.is_ascii_alphanumeric() || c == '-' || c == '_'),
            "id must be URL-safe base64 characters"
        );
        ids.insert(secret.id);
    }
    assert_eq!(ids.len(), 10_000, "all generated ids must be distinct");
}

#[test]
fn ping_reports_the_in_memory_backend_reachable() {
    let store = InMemorySecretStore::new();
    assert!(store.ping().is_ok());
}

#[test]
fn store_secret_with_current_clock_round_trips() {
    let mut store = InMemorySecretStore::new();
    let stored = store
        .store_secret("ciphertext".into(), "iv".into(), 3600)
        .expect("store_secret should succeed");
    let read = store
        .get_and_delete_secret(&stored.id)
        .expect("get must succeed")
        .expect("secret should be retrievable right after storing");
    assert_eq!(read.ciphertext, "ciphertext");
    assert_eq!(read.iv, "iv");
    assert_eq!(read.ttl_secs, 3600);
    assert!(read.read_at.is_some());
}
