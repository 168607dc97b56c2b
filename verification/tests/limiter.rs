use uptime_core::limiter::{get_rate_limiter, RateLimiter};

#[test]
fn quota_is_exact_within_one_window() {
    let mut lim = get_rate_limiter();
    assert!(lim.check_key(1, 0));
    assert!(lim.check_key(1, 100));
    assert!(!lim.check_key(1, 200));
    assert!(!lim.check_key(1, 499));
}

#[test]
fn distinct_principal_is_unaffected() {
    let mut lim = get_rate_limiter();
    assert!(lim.check_key(1, 0));
    assert!(lim.check_key(1, 0));
    assert!(!lim.check_key(1, 0));
    assert!(lim.check_key(2, 0));
    assert!(lim.check_key(2, 0));
    assert!(!lim.check_key(2, 0));
}

#[test]
fn one_permit_returns_after_one_period() {
    let mut lim = get_rate_limiter();
    assert!(lim.check_key(7, 0));
    assert!(lim.check_key(7, 0));
    assert!(!lim.check_key(7, 0));
    assert!(lim.check_key(7, 500));
    assert!(!lim.check_key(7, 600));
}

#[test]
fn idle_bucket_refills_to_capacity_only() {
    let mut lim = get_rate_limiter();
    assert!(lim.check_key(3, 0));
    assert!(lim.check_key(3, 0));
    assert!(!lim.check_key(3, 0));
    assert!(lim.check_key(3, 10_000));
    assert!(lim.check_key(3, 10_000));
    assert!(!lim.check_key(3, 10_000));
}

#[test]
fn custom_quota_burst_of_three() {
    let mut lim = RateLimiter::new(3, 1000);
    assert!(lim.check_key(9, 50));
    assert!(lim.check_key(9, 60));
    assert!(lim.check_key(9, 70));
    assert!(!lim.check_key(9, 80));
    assert!(lim.check_key(9, 1050));
    assert!(!lim.check_key(9, 1060));
}
