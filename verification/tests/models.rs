use cendre_backend::models::Secret;

#[test]
fn new_secret_sets_expected_fields() {
    let ciphertext = "ciphertext".to_string();
    let iv = "iv".to_string();
    let ttl_secs = 120;

    let secret = Secret::new(ciphertext.clone(), iv.clone(), ttl_secs);

    assert!(!secret.id.is_empty(), "id should be non-empty");
    assert!(
        secret.id.len() <= 24,
        "short ids should be base64url encoded (<=24 chars)"
    );
    assert!(
        secret
            .id
            .chars()
            .all(|c| c.is_ascii_alphanumeric() || c == '-' || c == '_'),
        "id must be URL-safe base64 characters"
    );
    assert_eq!(secret.ciphertext, ciphertext);
    assert_eq!(secret.iv, iv);
    assert_eq!(secret.ttl_secs, ttl_secs);
    assert!(
        secret.read_at.is_none(),
        "new secrets should not be marked as read"
    );
}

#[test]
fn expires_at_is_created_at_plus_ttl() {
    let ttl_secs = 60;
    let secret = Secret::new("c".into(), "i".into(), ttl_secs);

    let delta = secret.expires_at() - secret.created_at;
    assert_eq!(delta, ttl_secs as u64);
}

#[test]
fn is_expired_at_respects_expires_at_boundary() {
    let ttl_secs = 30;
    let mut secret = Secret::new("c".into(), "i".into(), ttl_secs);

    // Stabilize created_at to a known value to make this test fully deterministic.
    let fixed_now: u64 = 0;
    secret.created_at = fixed_now;

    let before_expiry = fixed_now + ttl_secs as u64 - 1;
    let at_expiry = fixed_now + ttl_secs as u64;
    let after_expiry = fixed_now + ttl_secs as u64 + 1;

    assert!(!secret.is_expired_at(before_expiry));
    assert!(secret.is_expired_at(at_expiry));
    assert!(secret.is_expired_at(after_expiry));
}

#[test]
fn mark_read_sets_read_at_timestamp() {
    let mut secret = Secret::new("c".into(), "i".into(), 10);
    let when: u64 = 42;

    assert!(secret.read_at.is_none());
    secret.mark_read(when);
    assert_eq!(secret.read_at, Some(when));
}

#[test]
fn new_at_uses_the_given_creation_time() {
    let secret = Secret::new_at("c".into(), "i".into(), 60, 1234);
    assert_eq!(secret.created_at, 1234);
    assert_eq!(secret.expires_at(), 1294);
    assert!(secret.read_at.is_none());
}
