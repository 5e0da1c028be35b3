use ip_api::rate_limit::RateLimiter;

const SEC: u64 = 1000;

#[test]
fn limiter_scenario_60_per_minute() {
    let mut limiter = RateLimiter::new(60, 60 * SEC);
    for _ in 0..60 {
        assert!(limiter.check_rate_limit_at("1.2.3.4", 0));
    }
    assert!(!limiter.check_rate_limit_at("1.2.3.4", 0));
    assert!(limiter.check_rate_limit_at("1.2.3.4", 61 * SEC));
}

#[test]
fn limiter_admits_quota_then_refuses() {
    let mut limiter = RateLimiter::new(3, 10 * SEC);
    assert!(limiter.check_rate_limit_at("10.0.0.1", 0));
    assert!(limiter.check_rate_limit_at("10.0.0.1", 1 * SEC));
    assert!(limiter.check_rate_limit_at("10.0.0.1", 5 * SEC));
    assert!(!limiter.check_rate_limit_at("10.0.0.1", 10 * SEC));
    assert!(!limiter.check_rate_limit_at("10.0.0.1", 10 * SEC));
}

#[test]
fn limiter_window_resets_count_to_one() {
    let mut limiter = RateLimiter::new(2, 10 * SEC);
    assert!(limiter.check_rate_limit_at("10.0.0.2", 0));
    assert!(limiter.check_rate_limit_at("10.0.0.2", 0));
    assert!(!limiter.check_rate_limit_at("10.0.0.2", 0));
    // The window has lapsed only once strictly more than its length has passed.
    assert!(!limiter.check_rate_limit_at("10.0.0.2", 10 * SEC));
    assert!(limiter.check_rate_limit_at("10.0.0.2", 10 * SEC + 1));
    // The new window counts the reset request as its first.
    assert!(limiter.check_rate_limit_at("10.0.0.2", 10 * SEC + 2));
    assert!(!limiter.check_rate_limit_at("10.0.0.2", 10 * SEC + 3));
}

#[test]
fn limiter_counts_addresses_independently() {
    let mut limiter = RateLimiter::new(1, 60 * SEC);
    assert!(limiter.check_rate_limit_at("10.0.0.3", 0));
    assert!(!limiter.check_rate_limit_at("10.0.0.3", 0));
    assert!(limiter.check_rate_limit_at("10.0.0.4", 0));
    assert!(!limiter.check_rate_limit_at("10.0.0.4", 0));
    assert_eq!(limiter.entry_count(), 2);
}

#[test]
fn limiter_zero_quota_refuses_everything() {
    let mut limiter = RateLimiter::new(0, 60 * SEC);
    assert!(!limiter.check_rate_limit_at("10.0.0.5", 0));
    assert!(!limiter.check_rate_limit_at("10.0.0.5", 120 * SEC));
}

#[test]
fn limiter_cleanup_drops_lapsed_windows() {
    let mut limiter = RateLimiter::new(5, 10 * SEC);
    limiter.check_rate_limit_at("a", 0);
    limiter.check_rate_limit_at("b", 5 * SEC);
    limiter.cleanup_at(10 * SEC);
    assert_eq!(limiter.entry_count(), 2);
    limiter.cleanup_at(12 * SEC);
    assert_eq!(limiter.entry_count(), 1);
    limiter.cleanup_at(16 * SEC);
    assert_eq!(limiter.entry_count(), 0);
}

#[test]
fn limiter_with_live_clock() {
    let mut limiter = RateLimiter::new(1, 60 * SEC);
    assert!(limiter.check_rate_limit("192.0.2.7"));
    assert!(!limiter.check_rate_limit("192.0.2.7"));
    limiter.cleanup();
    assert_eq!(limiter.entry_count(), 1);
}
