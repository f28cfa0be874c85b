use std::time::Duration;

use stateset_core::rate_limiter::policy::{
    parse_all_policies, parse_key_policies, parse_key_policy, parse_path_policies, parse_path_policy,
    PathPolicy, PolicyParseError,
};
use stateset_core::rate_limiter::request::{
    api_key_key, bearer_token, effective_config, get_rate_limit_key_for_api_key, get_rate_limit_key_for_ip,
    get_rate_limit_key_for_user, ip_key, is_exempt_path, key_type, select_key, user_key, uses_override,
};
use stateset_core::rate_limiter::window::{
    check_entry, keep_on_cleanup, redis_needs_expiry, redis_remaining, redis_result, redis_window_secs,
    remaining_for_entry, RateLimitConfig, RateLimitEntry, RateLimitError,
};

#[test]
fn test_parse_valid_path_policy() {
    let policy = parse_path_policy("/api/v1/orders:100:60").unwrap();
    assert_eq!(policy.prefix, "/api/v1/orders");
    assert_eq!(policy.requests_per_window, 100);
    assert_eq!(policy.window_duration, Duration::from_secs(60));
}

#[test]
fn test_parse_path_policy_with_spaces() {
    let policy = parse_path_policy("  /api/v1/orders : 100 : 60  ").unwrap();
    assert_eq!(policy.prefix, "/api/v1/orders");
    assert_eq!(policy.requests_per_window, 100);
}

#[test]
fn test_parse_path_policy_invalid_format() {
    let result = parse_path_policy("/api/v1/orders:100");
    assert!(matches!(result, Err(PolicyParseError::InvalidFormat { .. })));
}

#[test]
fn test_parse_path_policy_no_leading_slash() {
    let result = parse_path_policy("api/v1/orders:100:60");
    assert!(matches!(result, Err(PolicyParseError::InvalidPathFormat { .. })));
}

#[test]
fn test_parse_path_policy_invalid_limit() {
    let result = parse_path_policy("/api:abc:60");
    assert!(matches!(result, Err(PolicyParseError::InvalidLimit { .. })));
}

#[test]
fn test_parse_path_policy_zero_limit() {
    let result = parse_path_policy("/api:0:60");
    assert!(matches!(result, Err(PolicyParseError::LimitTooSmall { .. })));
}

#[test]
fn test_parse_path_policy_zero_window() {
    let result = parse_path_policy("/api:100:0");
    assert!(matches!(result, Err(PolicyParseError::WindowTooSmall { .. })));
}

#[test]
fn test_parse_valid_key_policy() {
    let (key, (limit, duration)) = parse_key_policy("sk_live_abc123:1000:60").unwrap();
    assert_eq!(key, "sk_live_abc123");
    assert_eq!(limit, 1000);
    assert_eq!(duration, Duration::from_secs(60));
}

#[test]
fn test_parse_multiple_path_policies() {
    let (policies, warnings) =
        parse_path_policies("/api/v1/orders:100:60,/api/v1/inventory:200:60,invalid,/api/v1/users:50:30");
    assert_eq!(policies.len(), 3);
    assert_eq!(warnings.len(), 1);
    assert!(warnings[0].contains("invalid"));
}

#[test]
fn test_parse_multiple_key_policies() {
    let (policies, warnings) = parse_key_policies("key1:100:60,key2:200:60,bad_policy,key3:50:30");
    assert_eq!(policies.len(), 3);
    assert_eq!(warnings.len(), 1);
}

#[test]
fn test_parse_all_policies() {
    let result = parse_all_policies(
        Some("/api/v1/orders:100:60"),
        Some("sk_live_test:500:60"),
        Some("user123:200:60"),
    );
    assert_eq!(result.path_policies.len(), 1);
    assert_eq!(result.api_key_policies.len(), 1);
    assert_eq!(result.user_policies.len(), 1);
    assert!(result.warnings.is_empty());
}

#[test]
fn parse_errors_carry_their_details() {
    match parse_path_policy("/api:abc:60") {
        Err(PolicyParseError::InvalidLimit { spec, value, reason }) => {
            assert_eq!(spec, "/api:abc:60");
            assert_eq!(value, "abc");
            assert_eq!(reason, "invalid digit found in string");
        }
        other => panic!("unexpected {:?}", other),
    }
    match parse_path_policy("/api:10:x") {
        Err(PolicyParseError::InvalidWindow { value, .. }) => assert_eq!(value, "x"),
        other => panic!("unexpected {:?}", other),
    }
    assert!(matches!(parse_path_policy("   "), Err(PolicyParseError::EmptySpec)));
    assert!(matches!(parse_path_policy("/a:1:2:3"), Err(PolicyParseError::InvalidFormat { parts: 4, .. })));
    assert!(matches!(parse_key_policy(""), Err(PolicyParseError::EmptySpec)));
}

#[test]
fn parse_error_message_text() {
    let e = parse_path_policy("/api:0:60").unwrap_err();
    assert_eq!(e.message(), "Limit must be at least 1, got 0");
    let e = parse_path_policy("api:1:60").unwrap_err();
    assert_eq!(e.message(), "Path policy must start with '/': got 'api'");
    let e = parse_path_policy("/api:1").unwrap_err();
    assert_eq!(
        e.message(),
        "Invalid policy format for '/api:1': expected 'path:limit:window_secs' or 'key:limit:window_secs', got 2 parts"
    );
}

#[test]
fn multiple_path_policies_keep_order_and_skip_blanks() {
    let (policies, warnings) = parse_path_policies("/a:1:10, ,/b:2:20");
    assert!(warnings.is_empty());
    assert_eq!(policies.len(), 2);
    assert_eq!(policies[0].prefix, "/a");
    assert_eq!(policies[1].prefix, "/b");
    assert_eq!(policies[1].window_duration, Duration::from_secs(20));
}

#[test]
fn absent_policy_strings_give_nothing() {
    let result = parse_all_policies(None, None, Some("u:bad"));
    assert!(result.path_policies.is_empty());
    assert_eq!(result.api_key_policies.len(), 0);
    assert_eq!(result.user_policies.len(), 0);
    assert_eq!(result.warnings.len(), 1);
}

#[test]
fn rate_limit_keys() {
    assert_eq!(get_rate_limit_key_for_ip("10.0.0.1"), "ip:10.0.0.1");
    assert_eq!(get_rate_limit_key_for_user("u1"), "user:u1");
    assert_eq!(get_rate_limit_key_for_api_key("k1"), "api_key:k1");
    assert_eq!(ip_key(Some(" 1.2.3.4 , 5.6.7.8"), Some("9.9.9.9")), "ip:1.2.3.4");
    assert_eq!(ip_key(None, Some("9.9.9.9")), "ip:9.9.9.9");
    assert_eq!(ip_key(None, None), "ip:unknown");
    assert_eq!(bearer_token("Bearer  abc "), Some("abc".to_string()));
    assert_eq!(bearer_token("Basic abc"), None);
    assert_eq!(user_key(None, Some("sub"), Some("hdr")), Some("user:sub".to_string()));
    assert_eq!(user_key(None, None, None), None);
    assert_eq!(api_key_key(Some("k")), Some("api_key:k".to_string()));
    assert_eq!(
        select_key(None, Some("user:a".to_string()), "ip:x".to_string()),
        "user:a"
    );
    assert_eq!(key_type("api_key:x"), "api_key");
    assert_eq!(key_type("user:x"), "user");
    assert_eq!(key_type("ip:x"), "ip");
}

#[test]
fn exempt_paths() {
    assert!(is_exempt_path("/health/live"));
    assert!(is_exempt_path("/metrics"));
    assert!(is_exempt_path("/metrics/x"));
    assert!(!is_exempt_path("/metricsx"));
    assert!(is_exempt_path("/api/versions"));
    assert!(!is_exempt_path("/api/v1/orders"));
}

fn config(limit: u32, secs: u64) -> RateLimitConfig {
    RateLimitConfig {
        requests_per_window: limit,
        window_duration: Duration::from_secs(secs),
        burst_limit: None,
        enable_headers: true,
    }
}

#[test]
fn window_admits_exactly_the_limit() {
    let cfg = config(3, 60);
    let mut entry = RateLimitEntry::new(0);
    let mut allowed = Vec::new();
    for t in 1..=5u128 {
        allowed.push(check_entry(&mut entry, t, &cfg).allowed);
    }
    assert_eq!(allowed, vec![true, true, true, false, false]);
}

#[test]
fn window_resets_after_expiry() {
    let cfg = config(1, 1);
    let mut entry = RateLimitEntry::new(0);
    assert!(check_entry(&mut entry, 10, &cfg).allowed);
    let refused = check_entry(&mut entry, 20, &cfg);
    assert!(!refused.allowed);
    assert_eq!(refused.remaining, 0);
    assert_eq!(entry.count, 2);
    let later = check_entry(&mut entry, 2_000_000_000, &cfg);
    assert!(later.allowed);
    assert_eq!(entry.count, 1);
    assert_eq!(entry.window_start, 2_000_000_000);
    assert_eq!(later.reset_time, Duration::from_secs(1));
}

#[test]
fn remaining_and_cleanup() {
    let cfg = config(10, 60);
    let entry = RateLimitEntry { count: 4, window_start: 0, last_request: 5 };
    assert_eq!(remaining_for_entry(Some(&entry), 10, &cfg), 6);
    assert_eq!(remaining_for_entry(None, 10, &cfg), 10);
    assert_eq!(remaining_for_entry(Some(&entry), 61_000_000_000, &cfg), 10);
    assert!(keep_on_cleanup(&entry, 61_000_000_000, &Duration::from_secs(60)));
}

#[test]
fn redis_decisions() {
    assert_eq!(redis_window_secs(&config(1, 0)), 1);
    assert_eq!(redis_window_secs(&config(1, 90)), 90);
    assert!(redis_needs_expiry(1, Some(30)));
    assert!(redis_needs_expiry(2, Some(-1)));
    assert!(!redis_needs_expiry(2, Some(30)));
    let r = redis_result(3, Some(12), 5, 60);
    assert!(r.allowed);
    assert_eq!(r.remaining, 2);
    assert_eq!(r.reset_time, Duration::from_secs(12));
    let r = redis_result(6, None, 5, 60);
    assert!(!r.allowed);
    assert_eq!(r.remaining, 0);
    assert_eq!(r.reset_time, Duration::from_secs(60));
    assert_eq!(redis_remaining(7, 5), 0);
    assert_eq!(redis_remaining(0, 5), 5);
}

#[test]
fn error_texts() {
    assert_eq!(RateLimitError::LimitExceeded.message(), "Rate limit exceeded");
    assert_eq!(RateLimitError::InvalidConfig("x".to_string()).message(), "Invalid configuration: x");
    assert_eq!(RateLimitError::InternalError("y".to_string()).response_parts(), (500, "Internal error"));
    assert_eq!(RateLimitError::LimitExceeded.response_parts(), (429, "Rate limit exceeded"));
}

#[test]
fn effective_config_prefers_key_overrides_then_paths() {
    let base = config(100, 60);
    let (api, _) = parse_key_policies("k1:5:10");
    let (users, _) = parse_key_policies("");
    let paths = vec![PathPolicy {
        prefix: "/api/v1/orders".to_string(),
        requests_per_window: 7,
        window_duration: Duration::from_secs(30),
    }];
    let e = effective_config(&base, "api_key:k1", &api, &users, &paths, "/api/v1/orders/1");
    assert_eq!(e.requests_per_window, 5);
    assert!(uses_override(&e, &base));
    let e = effective_config(&base, "ip:1.1.1.1", &api, &users, &paths, "/api/v1/orders/1");
    assert_eq!(e.requests_per_window, 7);
    assert_eq!(e.window_duration, Duration::from_secs(30));
    let e = effective_config(&base, "ip:1.1.1.1", &api, &users, &paths, "/other");
    assert_eq!(e.requests_per_window, 100);
    assert!(!uses_override(&e, &base));
}

use stateset_core::rate_limiter::store::{decide_request, RateLimiter};

#[test]
fn overrides_share_underlying_store() {
    let base_config = config(2, 60);
    let base = RateLimiter::in_memory(base_config.clone());
    let mut override_config = base_config.clone();
    override_config.requests_per_window = 1;
    let override_limiter = base.with_config(override_config);
    let first = base.check_rate_limit("user:test-shared").expect("first check");
    assert!(first.allowed, "first request should be allowed");
    let second = override_limiter.check_rate_limit("user:test-shared").expect("second check");
    assert!(!second.allowed, "override limiter should see the incremented count");
}

#[test]
fn test_rate_limiter_basic_functionality() {
    let limiter = RateLimiter::in_memory(config(2, 60));
    assert!(limiter.check_rate_limit("test_key").unwrap().allowed);
    assert!(limiter.check_rate_limit("test_key").unwrap().allowed);
    assert!(!limiter.check_rate_limit("test_key").unwrap().allowed);
}

#[test]
fn test_rate_limiter_different_keys() {
    let limiter = RateLimiter::in_memory(config(1, 60));
    assert!(limiter.check_rate_limit("key1").unwrap().allowed);
    assert!(limiter.check_rate_limit("key2").unwrap().allowed);
    assert!(!limiter.check_rate_limit("key1").unwrap().allowed);
    assert!(!limiter.check_rate_limit("key2").unwrap().allowed);
}

#[test]
fn quota_reset_and_cleanup() {
    let limiter = RateLimiter::in_memory(config(5, 60));
    assert_eq!(limiter.get_remaining_quota("k"), 5);
    assert!(limiter.check_rate_limit("k").unwrap().allowed);
    assert_eq!(limiter.get_remaining_quota("k"), 3);
    limiter.cleanup_expired();
    assert_eq!(limiter.get_remaining_quota("k"), 3);
    limiter.reset("k").unwrap();
    assert_eq!(limiter.get_remaining_quota("k"), 5);
    assert_eq!(limiter.config().requests_per_window, 5);
}

#[test]
fn saturated_counter_refuses() {
    let cfg = config(u32::MAX, 60);
    let e = RateLimitEntry { count: u32::MAX, window_start: 0, last_request: 0 };
    let (next, result) = decide_request(e, 10, &cfg);
    assert!(!result.allowed);
    assert_eq!(next.count, u32::MAX);
    let (next, result) = decide_request(e, 61_000_000_000, &cfg);
    assert!(result.allowed);
    assert_eq!(next.count, 1);
}

use stateset_core::rate_limiter::request::{plan_request, rate_limit_headers, respond, RequestOutcome, RequestPlan};
use stateset_core::rate_limiter::window::RateLimitResult;

#[test]
fn request_plans() {
    let base = config(100, 60);
    let (api, _) = parse_key_policies("k1:5:10");
    let (users, _) = parse_key_policies("");
    let (paths, _) = parse_path_policies("/api/v1/orders:7:30");
    assert!(matches!(
        plan_request("/health", None, None, "ip:1".to_string(), &base, &api, &users, &paths),
        RequestPlan::Exempt
    ));
    match plan_request(
        "/api/v1/orders/9",
        Some("api_key:k1".to_string()),
        None,
        "ip:1".to_string(),
        &base,
        &api,
        &users,
        &paths,
    ) {
        RequestPlan::Check { key, config, overridden } => {
            assert_eq!(key, "api_key:k1");
            assert_eq!(config.requests_per_window, 5);
            assert!(overridden);
        }
        other => panic!("unexpected {:?}", other),
    }
    match plan_request("/other", None, None, "ip:1".to_string(), &base, &api, &users, &paths) {
        RequestPlan::Check { key, config, overridden } => {
            assert_eq!(key, "ip:1");
            assert_eq!(config.requests_per_window, 100);
            assert!(!overridden);
        }
        other => panic!("unexpected {:?}", other),
    }
}

#[test]
fn responses_and_headers() {
    let allowed = RateLimitResult { allowed: true, limit: 10, remaining: 7, reset_time: Duration::from_millis(42_500) };
    let headers = rate_limit_headers(&allowed, true);
    assert_eq!(headers.len(), 6);
    assert_eq!(headers[0], ("X-RateLimit-Limit".to_string(), "10".to_string()));
    assert_eq!(headers[1], ("X-RateLimit-Remaining".to_string(), "7".to_string()));
    assert_eq!(headers[2], ("X-RateLimit-Reset".to_string(), "42".to_string()));
    assert_eq!(headers[4], ("RateLimit-Remaining".to_string(), "7".to_string()));
    assert_eq!(rate_limit_headers(&allowed, false).len(), 3);
    match respond(&allowed, true, false) {
        RequestOutcome::Forward { headers } => assert_eq!(headers.len(), 3),
        other => panic!("unexpected {:?}", other),
    }
    let refused = RateLimitResult { allowed: false, limit: 10, remaining: 0, reset_time: Duration::from_secs(5) };
    match respond(&refused, true, true) {
        RequestOutcome::Refuse { status, body, headers } => {
            assert_eq!(status, 429);
            assert_eq!(body, "Rate limit exceeded");
            assert_eq!(headers[1].1, "0");
            assert_eq!(headers[5], ("RateLimit-Reset".to_string(), "5".to_string()));
        }
        other => panic!("unexpected {:?}", other),
    }
    match respond(&refused, false, true) {
        RequestOutcome::Refuse { headers, .. } => assert!(headers.is_empty()),
        other => panic!("unexpected {:?}", other),
    }
}

#[test]
fn accepted_key_policy_fields() {
    let (key, (limit, window)) = parse_key_policy("  sk_live : 10 : 60 ").unwrap();
    assert_eq!(key, "sk_live");
    assert_eq!(limit, 10);
    assert_eq!(window, std::time::Duration::from_secs(60));
    assert!(matches!(parse_key_policy(":100:60"), Err(PolicyParseError::EmptySpec)));
    assert!(matches!(parse_key_policy("   "), Err(PolicyParseError::EmptySpec)));
}

#[test]
fn path_policy_fields_accounted_for() {
    let (policies, warnings) = parse_path_policies("/a:1:1, ,bad,/b:2:2,/c:0:1");
    assert_eq!(policies.len(), 2);
    assert_eq!(warnings.len(), 2);
    assert!(warnings[0].contains("bad"));
    assert!(warnings[1].contains("/c:0:1"));
}
