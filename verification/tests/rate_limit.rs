use cendre_backend::rate_limit::RateLimiter;

#[test]
fn allows_up_to_the_limit_then_denies() {
    let mut limiter = RateLimiter::new(3, 60);
    assert!(limiter.check_at("a", 0));
    assert!(limiter.check_at("a", 10));
    assert!(limiter.check_at("a", 20));
    assert!(
        !limiter.check_at("a", 30),
        "the fourth check within the window must be denied"
    );
}

#[test]
fn window_reset_allows_again_with_a_fresh_count() {
    let mut limiter = RateLimiter::new(3, 60);
    assert!(limiter.check_at("a", 0));
    assert!(limiter.check_at("a", 1));
    assert!(limiter.check_at("a", 2));
    assert!(!limiter.check_at("a", 3));

    // Strictly more than the window length after the window opened.
    assert!(
        limiter.check_at("a", 61),
        "a check after the window elapsed must be allowed again"
    );
    // The count restarted: two more fit before the limit bites again.
    assert!(limiter.check_at("a", 62));
    assert!(limiter.check_at("a", 63));
    assert!(!limiter.check_at("a", 64));
}

#[test]
fn elapsed_equal_to_the_window_does_not_reset() {
    let mut limiter = RateLimiter::new(1, 60);
    assert!(limiter.check_at("a", 0));
    // Exactly the window length is still inside the window: hard reset
    // happens only strictly after it.
    assert!(!limiter.check_at("a", 60));
    assert!(limiter.check_at("a", 61));
}

#[test]
fn identities_are_limited_independently() {
    let mut limiter = RateLimiter::new(1, 60);
    assert!(limiter.check_at("a", 0));
    assert!(!limiter.check_at("a", 1));
    assert!(limiter.check_at("b", 2), "a fresh identity has its own bucket");
}

#[test]
fn a_limit_of_zero_denies_every_request() {
    let mut limiter = RateLimiter::new(0, 60);
    assert!(!limiter.check_at("a", 0));
    assert!(!limiter.check_at("a", 100));
}

#[test]
fn check_with_current_clock_counts_like_check_at() {
    let mut limiter = RateLimiter::new(2, 60);
    assert!(limiter.check("a"));
    assert!(limiter.check("a"));
    assert!(!limiter.check("a"));
}
