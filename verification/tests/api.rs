use cendre_backend::api::{
    rate_limit_identity, render_secret, security_headers, validate_create, ApiError,
};
use cendre_backend::models::Secret;
use cendre_backend::store::StorageError;

#[test]
fn validate_accepts_a_well_formed_request() {
    assert!(validate_create("ciphertext-value", "iv-value", 60).is_ok());
    assert!(validate_create("c", "i", 1).is_ok());
    assert!(validate_create("c", "i", 86400).is_ok());
}

#[test]
fn validate_rejects_blank_payload_fields() {
    let cases = [("", "iv"), ("   ", "iv"), ("c", ""), ("c", " \t\n"), ("\u{a0}", "iv")];
    for (ciphertext, iv) in cases {
        match validate_create(ciphertext, iv, 60) {
            Err(ApiError::BadRequest(msg)) => {
                assert_eq!(msg, "ciphertext and iv must be non-empty strings")
            }
            other => panic!("expected BadRequest, got {:?}", other),
        }
    }
}

#[test]
fn validate_rejects_out_of_range_ttl() {
    for ttl in [0u32, 86401, u32::MAX] {
        match validate_create("c", "i", ttl) {
            Err(ApiError::BadRequest(msg)) => {
                assert_eq!(msg, "ttl_secs must be between 1 and 86400 seconds")
            }
            other => panic!("expected BadRequest, got {:?}", other),
        }
    }
}

#[test]
fn error_status_codes_match_the_api_contract() {
    assert_eq!(ApiError::BadRequest("x").status_code(), 400);
    assert_eq!(ApiError::NotFound.status_code(), 404);
    assert_eq!(
        ApiError::Storage(StorageError::Backend("down".into())).status_code(),
        500
    );
    assert_eq!(ApiError::Internal("oops".into()).status_code(), 500);
}

#[test]
fn error_messages_match_the_api_contract() {
    assert_eq!(ApiError::BadRequest("bad ttl").message(), "bad ttl");
    assert_eq!(ApiError::NotFound.message(), "secret not found");
    assert_eq!(
        ApiError::Storage(StorageError::Backend("connection refused".into())).message(),
        "internal storage error",
        "backend detail must not leak to the client"
    );
    assert_eq!(ApiError::Internal("oops".into()).message(), "oops");
}

#[test]
fn render_secret_exposes_payload_and_hides_absence_reason() {
    let secret = Secret::new_at("ct".into(), "ivv".into(), 60, 5);
    let id = secret.id.clone();
    let resp = render_secret(Some(secret)).expect("a found secret renders");
    assert_eq!(resp.id, id);
    assert_eq!(resp.ciphertext, "ct");
    assert_eq!(resp.iv, "ivv");
    assert_eq!(resp.ttl_secs, 60);

    match render_secret(None) {
        Err(ApiError::NotFound) => {}
        other => panic!("expected NotFound, got {:?}", other),
    }
}

#[test]
fn create_then_read_secret_end_to_end() {
    let mut store = cendre_backend::store::InMemorySecretStore::new();

    // Create a new secret, exactly as the API layer would.
    validate_create("ciphertext-value", "iv-value", 60).expect("a valid request is admitted");
    let stored = store
        .store_secret("ciphertext-value".into(), "iv-value".into(), 60)
        .expect("store_secret should succeed");
    let id = stored.id.clone();
    assert!(!id.is_empty(), "response should contain an id");

    // First read: we should get back the ciphertext and iv.
    let found = store
        .get_and_delete_secret(&id)
        .expect("request to router should succeed");
    let first = render_secret(found).expect("first read should return the secret");
    assert_eq!(first.ciphertext, "ciphertext-value");
    assert_eq!(first.iv, "iv-value");
    assert_eq!(first.ttl_secs, 60);

    // Second read: the secret is gone.
    let gone = store
        .get_and_delete_secret(&id)
        .expect("request to router should succeed");
    match render_secret(gone) {
        Err(ApiError::NotFound) => {}
        other => panic!("expected NotFound, got {:?}", other),
    }
}

#[test]
fn rate_limit_identity_prefers_the_peer_address() {
    assert_eq!(rate_limit_identity(Some("203.0.113.9".to_string())), "203.0.113.9");
    assert_eq!(rate_limit_identity(None), "global");
}

#[test]
fn security_headers_are_the_fixed_four() {
    let headers = security_headers();
    let expected = [
        ("X-Content-Type-Options", "nosniff"),
        ("X-Frame-Options", "DENY"),
        ("Referrer-Policy", "no-referrer"),
        (
            "Strict-Transport-Security",
            "max-age=63072000; includeSubDomains; preload",
        ),
    ];
    assert_eq!(headers.len(), expected.len());
    for ((name, value), (want_name, want_value)) in headers.iter().zip(expected) {
        assert_eq!(name, want_name);
        assert_eq!(value, want_value);
    }
}
