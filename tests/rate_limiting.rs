use ddos_protection_service::api::check_rate_limit;
use ddos_protection_service::api::rate_limit_response;
use ddos_protection_service::models::RateLimitConfig;
use ddos_protection_service::rate_limiter::rate_limit_verdict;
use ddos_protection_service::rate_limiter::remaining_quota;
use ddos_protection_service::rate_limiter::RateLimitError;
use ddos_protection_service::rate_limiter::RateLimiter;
use ddos_protection_service::store::CounterStore;
use ddos_protection_service::utils::format_rate_limit_key;
use ddos_protection_service::utils::format_window_key;
use ddos_protection_service::utils::get_current_timestamp;
use ddos_protection_service::utils::timestamp_from;

fn limiter(limit: u32, window: u32) -> RateLimiter {
    RateLimiter::new(RateLimitConfig { default_limit: limit, burst_size: 3, window_seconds: window })
}

#[test]
fn test_rate_limiter() {
    let limiter = limiter(2, 60);
    let mut store = CounterStore::new();
    let now = 1_000;

    // First request should succeed
    assert!(limiter.check_rate_limit(&mut store, "test_key", now).is_ok());
    // Second request should succeed
    assert!(limiter.check_rate_limit(&mut store, "test_key", now).is_ok());
    // Third request should fail
    assert!(matches!(
        limiter.check_rate_limit(&mut store, "test_key", now),
        Err(RateLimitError::ExceededLimit)
    ));
    // Reset should allow new requests
    limiter.reset_rate_limit(&mut store, "test_key");
    assert!(limiter.check_rate_limit(&mut store, "test_key", now).is_ok());
}

#[test]
fn limit_two_scenario_for_identity_a() {
    let limiter = limiter(2, 60);
    let mut store = CounterStore::new();
    assert_eq!(limiter.check_rate_limit(&mut store, "A", 10), Ok(()));
    assert_eq!(limiter.check_rate_limit(&mut store, "A", 11), Ok(()));
    assert_eq!(limiter.check_rate_limit(&mut store, "A", 12), Err(RateLimitError::ExceededLimit));
    limiter.reset_rate_limit(&mut store, "A");
    assert_eq!(limiter.check_rate_limit(&mut store, "A", 13), Ok(()));
}

#[test]
fn nth_call_refused_iff_beyond_limit() {
    let limit = 5;
    let limiter = limiter(limit, 60);
    let mut store = CounterStore::new();
    for n in 1..=12u32 {
        let r = limiter.check_rate_limit(&mut store, "10.0.0.1", 100);
        assert_eq!(r.is_err(), n > limit, "call {}", n);
    }
    limiter.reset_rate_limit(&mut store, "10.0.0.1");
    assert!(limiter.check_rate_limit(&mut store, "10.0.0.1", 100).is_ok());
}

#[test]
fn identities_are_counted_apart() {
    let limiter = limiter(1, 60);
    let mut store = CounterStore::new();
    assert!(limiter.check_rate_limit(&mut store, "a", 0).is_ok());
    assert!(limiter.check_rate_limit(&mut store, "b", 0).is_ok());
    assert!(limiter.check_rate_limit(&mut store, "a", 0).is_err());
}

#[test]
fn window_rollover_restores_quota_and_full_reset_time() {
    let limiter = limiter(1, 60);
    let mut store = CounterStore::new();
    assert!(limiter.check_rate_limit(&mut store, "k", 100).is_ok());
    assert!(limiter.check_rate_limit(&mut store, "k", 159).is_err());
    // the window opened at 100 ends at 160
    assert_eq!(limiter.get_reset_time(&store, "k", 159), 1);
    assert_eq!(limiter.get_reset_time(&store, "k", 160), 0);
    assert!(limiter.check_rate_limit(&mut store, "k", 160).is_ok());
    assert_eq!(limiter.get_reset_time(&store, "k", 160), 60);
}

#[test]
fn reset_time_never_grows_within_a_window() {
    let limiter = limiter(10, 30);
    let mut store = CounterStore::new();
    assert_eq!(limiter.get_reset_time(&store, "x", 0), 0);
    limiter.check_rate_limit(&mut store, "x", 0).unwrap();
    let mut last = limiter.get_reset_time(&store, "x", 0);
    assert_eq!(last, 30);
    for t in 1..40u64 {
        let now = limiter.get_reset_time(&store, "x", t);
        assert!(now <= last);
        last = now;
    }
    assert_eq!(last, 0);
}

#[test]
fn remaining_is_clamped_to_the_limit() {
    let limiter = limiter(3, 60);
    let mut store = CounterStore::new();
    assert_eq!(limiter.get_remaining(&store, "r", 0), 3);
    for _ in 0..5 {
        let _ = limiter.check_rate_limit(&mut store, "r", 0);
    }
    assert_eq!(limiter.get_remaining(&store, "r", 0), 0);
    assert_eq!(remaining_quota(1, 3), 2);
    assert_eq!(remaining_quota(7, 3), 0);
}

#[test]
fn verdict_from_count() {
    assert_eq!(rate_limit_verdict(2, 2), Ok(()));
    assert_eq!(rate_limit_verdict(3, 2), Err(RateLimitError::ExceededLimit));
    assert_eq!(rate_limit_verdict(0, 0), Ok(()));
}

#[test]
fn test_rate_limit() {
    let limiter = limiter(100, 60);
    let mut store = CounterStore::new();
    let resp = check_rate_limit(&limiter, &mut store, "127.0.0.1", 5);
    assert!(resp.allowed);
    assert_eq!(resp.remaining, 99);
    assert_eq!(resp.reset, 60);
}

#[test]
fn refused_call_reports_no_quota() {
    let limiter = limiter(1, 60);
    let mut store = CounterStore::new();
    let first = check_rate_limit(&limiter, &mut store, "ip", 0);
    assert!(first.allowed);
    assert_eq!(first.remaining, 0);
    let second = check_rate_limit(&limiter, &mut store, "ip", 20);
    assert!(!second.allowed);
    assert_eq!(second.remaining, 0);
    assert_eq!(second.reset, 40);
}

#[test]
fn keys_are_namespaced() {
    assert_eq!(format_rate_limit_key("rate_limit", "1.2.3.4"), "rate_limit:1.2.3.4");
    assert_eq!(format_rate_limit_key("", ""), ":");
    assert_eq!(format_window_key("request_rate", "Y", 60), "request_rate:Y:60");
    assert_eq!(format_window_key("t", "z", 0), "t:z:0");
    assert_eq!(format_window_key("t", "z", 4_294_967_295), "t:z:4294967295");
}

#[test]
fn clock_reads_after_the_epoch() {
    assert!(get_current_timestamp() > 1_600_000_000);
}

#[test]
fn store_counters_expire_and_restart() {
    let mut store = CounterStore::new();
    assert_eq!(store.increment_with_window("c", 5, 10, 0), 5);
    assert_eq!(store.increment_with_window("c", 5, 10, 9), 10);
    assert_eq!(store.get("c", 9), 10);
    assert_eq!(store.get("c", 10), 0);
    assert_eq!(store.increment_with_window("c", 1, 10, 10), 1);
    assert_eq!(store.time_to_live("c", 12), 8);
    store.delete("c");
    assert_eq!(store.get("c", 12), 0);
    assert_eq!(store.increment_with_window("big", u64::MAX, 10, 0), u64::MAX);
    assert_eq!(store.increment_with_window("big", 1, 10, 0), u64::MAX);
}

#[test]
fn store_history_rolls() {
    let mut store = CounterStore::new();
    for i in 0..70u32 {
        store.append_sample("h", i);
    }
    let h = store.samples("h");
    assert_eq!(h.len(), 64);
    assert_eq!(h[0], 6);
    assert_eq!(h[63], 69);
    store.clear_history("h");
    assert!(store.samples("h").is_empty());
}

#[test]
fn remote_count_decides_the_response() {
    let ok = rate_limit_response(3, 42, 5);
    assert!(ok.allowed);
    assert_eq!(ok.remaining, 2);
    assert_eq!(ok.reset, 42);
    let refused = rate_limit_response(6, -1, 5);
    assert!(!refused.allowed);
    assert_eq!(refused.remaining, 0);
    assert_eq!(refused.reset, 0);
}

#[test]
fn clock_before_epoch_reads_zero() {
    assert_eq!(timestamp_from(None), 0);
    assert_eq!(timestamp_from(Some(1_700_000_000)), 1_700_000_000);
}

#[test]
fn reset_time_stays_within_the_window() {
    let limiter = limiter(3, 30);
    let mut store = CounterStore::new();
    for t in 0..100u64 {
        let _ = limiter.check_rate_limit(&mut store, "w", t);
        assert!(limiter.get_reset_time(&store, "w", t) <= 30);
    }
}

#[test]
fn expired_counters_are_destroyed() {
    let mut store = CounterStore::new();
    store.increment_with_window("old", 1, 10, 0);
    store.increment_with_window("new", 1, 10, 5);
    store.append_sample("h", 3);
    store.purge_expired(12);
    assert_eq!(store.get("old", 0), 0);
    assert_eq!(store.time_to_live("old", 0), 0);
    assert_eq!(store.get("new", 12), 1);
    assert_eq!(store.time_to_live("new", 12), 3);
    assert_eq!(store.samples("h"), vec![3]);
}
