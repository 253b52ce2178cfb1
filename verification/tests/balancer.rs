use mimo_tts::balancer::ProviderLoadBalancer;
use mimo_tts::rate_limiter::{next_backoff_us, ProviderRateLimiterMap, RpmStep, TokenBucket};

#[test]
fn test_select_returns_added_provider() {
    let mut lb = ProviderLoadBalancer::new();
    lb.add_provider("p1", 100);
    assert_eq!(lb.select(None), Some("p1".to_string()));
}

#[test]
fn test_select_least_connections() {
    let mut lb = ProviderLoadBalancer::new();
    lb.add_provider("p1", 100);
    lb.add_provider("p2", 100);
    for _ in 0..3 {
        lb.on_request_start("p1");
    }
    lb.on_request_start("p2");
    assert_eq!(lb.select(None), Some("p2".to_string()));
}

#[test]
fn test_select_preferred_provider() {
    let mut lb = ProviderLoadBalancer::new();
    lb.add_provider("p1", 100);
    lb.add_provider("p2", 100);
    lb.on_request_start("p1");
    assert_eq!(lb.select(Some("p1")), Some("p1".to_string()));
}

#[test]
fn test_circuit_breaker_opens() {
    let mut lb = ProviderLoadBalancer::new();
    lb.add_provider("p1", 100);
    lb.add_provider("p2", 100);
    for _ in 0..5 {
        lb.on_failure("p1");
    }
    assert_eq!(lb.select(None), Some("p2".to_string()));
}

#[test]
fn test_circuit_breaker_half_open() {
    // 50 ms recovery timeout; the clock is passed explicitly.
    let mut lb = ProviderLoadBalancer::with_config(3, 50_000_000);
    lb.add_provider("p1", 100);
    let t0: u64 = 1_000_000_000;
    for _ in 0..3 {
        lb.on_failure_at("p1", t0);
    }
    assert_eq!(lb.select_at(None, t0), None);
    assert_eq!(lb.select_at(None, t0 + 60_000_000), Some("p1".to_string()));
}

#[test]
fn test_success_resets_failures() {
    let mut lb = ProviderLoadBalancer::new();
    lb.add_provider("p1", 100);
    for _ in 0..4 {
        lb.on_failure("p1");
    }
    lb.on_success("p1");
    assert_eq!(lb.select(None), Some("p1".to_string()));
}

#[test]
fn test_active_requests_tracking() {
    let mut lb = ProviderLoadBalancer::new();
    lb.add_provider("p1", 100);
    lb.on_request_start("p1");
    lb.on_request_start("p1");
    assert_eq!(lb.active_requests("p1"), 2);
    lb.on_request_end("p1");
    assert_eq!(lb.active_requests("p1"), 1);
}

#[test]
fn test_remove_provider() {
    let mut lb = ProviderLoadBalancer::new();
    lb.add_provider("p1", 100);
    lb.add_provider("p2", 100);
    lb.remove_provider("p1");
    assert_eq!(lb.select(None), Some("p2".to_string()));
}

#[test]
fn test_empty_balancer_returns_none() {
    let lb = ProviderLoadBalancer::new();
    assert_eq!(lb.select(None), None);
}

#[test]
fn test_capacity_weighted_selection() {
    let mut lb = ProviderLoadBalancer::new();
    lb.add_provider("small", 50);
    lb.add_provider("large", 200);
    for _ in 0..10 {
        lb.on_request_start("small");
        lb.on_request_start("large");
    }
    assert_eq!(lb.select(None), Some("large".to_string()));
}

#[test]
fn request_end_never_goes_below_zero() {
    let mut lb = ProviderLoadBalancer::new();
    lb.add_provider("p1", 10);
    lb.on_request_end("p1");
    assert_eq!(lb.active_requests("p1"), 0);
    assert_eq!(lb.active_requests("missing"), 0);
}

#[test]
fn ties_go_to_the_first_registered() {
    let mut lb = ProviderLoadBalancer::new();
    lb.add_provider("a", 100);
    lb.add_provider("b", 100);
    assert_eq!(lb.select_at(None, 5), Some("a".to_string()));
    let ids = lb.provider_ids();
    assert_eq!(ids, vec!["a".to_string(), "b".to_string()]);
}

#[test]
fn bucket_spends_burst_then_refills() {
    // 60 per minute: one token a second; burst of 3.
    let mut b = TokenBucket::new_with_burst_at(60, 3, 0);
    assert_eq!(b.available(), 3);
    assert!(b.try_acquire_at(0));
    assert!(b.try_acquire_at(0));
    assert!(b.try_acquire_at(0));
    assert!(!b.try_acquire_at(0));
    // 50 ms later: under the refill interval, nothing earned
    assert!(!b.try_acquire_at(50_000_000));
    // 2 s later: two tokens earned
    assert!(b.try_acquire_n_at(2, 2_000_000_000));
    assert_eq!(b.available(), 0);
    b.release(10);
    assert_eq!(b.available(), 3);
}

#[test]
fn backoff_doubles_up_to_a_cap() {
    assert_eq!(next_backoff_us(100), 200);
    assert_eq!(next_backoff_us(49_999), 99_998);
    assert_eq!(next_backoff_us(60_000), 100_000);
    assert_eq!(next_backoff_us(u64::MAX / 2), 100_000);
}

#[test]
fn degraded_mode_lowers_then_restores_rate() {
    let mut map = ProviderRateLimiterMap::new(100, 10_000_000, 10);
    map.add_provider_at("p", 100, 10_000_000, 10, 0);
    assert_eq!(map.effective_rpm_at("p", 0), 100);
    map.enter_degraded_mode_at("p", 10, 500_000, 60_000_000_000, 0);
    assert_eq!(map.effective_rpm_at("p", 1), 10);
    assert!(map.is_degraded_at("p", 1));
    // after the recovery window the provider leaves degraded mode
    assert!(!map.is_degraded_at("p", 61_000_000_000));
    assert_eq!(map.effective_rpm_at("p", 61_000_000_000), 100);
}

#[test]
fn limiter_ref_takes_and_refunds_tokens() {
    let mut map = ProviderRateLimiterMap::new(60, 1000, 2);
    let r = map.get_or_create_at("p", 0);
    assert_eq!(r.try_acquire_rpm_at(&mut map, 0), RpmStep::Acquired);
    assert_eq!(r.try_acquire_rpm_at(&mut map, 0), RpmStep::Acquired);
    assert_eq!(r.try_acquire_rpm_at(&mut map, 0), RpmStep::Retry);
    r.release_rpm(&mut map, 1);
    assert_eq!(r.try_acquire_rpm_at(&mut map, 0), RpmStep::Acquired);
    assert!(r.try_acquire_tpm_at(&mut map, 1000, 0));
    assert!(!r.try_acquire_tpm_at(&mut map, 1, 0));
    r.release_tpm(&mut map, 5);
    assert!(r.try_acquire_tpm_at(&mut map, 5, 0));
    let missing = mimo_tts::rate_limiter::ProviderLimiterRef { provider_id: "zz".to_string() };
    assert_eq!(missing.try_acquire_rpm_at(&mut map, 0), RpmStep::NotFound);
}
