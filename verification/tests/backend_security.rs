use submora::error::ApiError;
use submora::limits::{LoginRateLimiter, PublicRateLimiter};
use submora::net::{ip_to_string, parse_ip_address, parse_socket_address, IpAddress, SocketAddress};
use submora::security::{
    csrf_token_for_session, extract_client_ip, forwarded_for_text, forwarded_ip, login_rate_limit_key, pick_client_ip,
    real_ip_text, request_client_ip, request_id_for, verify_csrf, CSRF_HEADER,
};

/// Milliseconds as the limiters' nanosecond instants.
fn ms(n: u64) -> u64 {
    n * 1_000_000
}

fn peer(a: u8, b: u8, c: u8, d: u8) -> Option<SocketAddress> {
    Some(SocketAddress { ip: IpAddress::V4(a, b, c, d), port: 4000, scope_id: 0 })
}

#[test]
fn login_limiter_locks_after_max_failures() {
    let mut limiter = LoginRateLimiter::new(3, 300, 900);
    assert!(limiter.check_at("k", ms(10_000)).is_ok());
    limiter.record_failure_at("k", ms(10_000));
    limiter.record_failure_at("k", ms(11_000));
    assert!(limiter.check_at("k", ms(12_000)).is_ok());
    limiter.record_failure_at("k", ms(12_000));
    let refused = limiter.check_at("k", ms(13_000)).unwrap_err();
    assert_eq!(refused.status, 429);
    assert_eq!(refused.message, "too many login attempts, retry in 899s");
}

#[test]
fn login_lock_expires_at_deadline() {
    let mut limiter = LoginRateLimiter::new(1, 300, 60);
    limiter.record_failure_at("k", ms(100_000));
    assert!(limiter.check_at("k", ms(159_999)).is_err());
    assert!(limiter.check_at("k", ms(160_000)).is_ok());
}

#[test]
fn login_success_clears_failures() {
    let mut limiter = LoginRateLimiter::new(2, 300, 60);
    limiter.record_failure_at("k", ms(100));
    limiter.record_success("k");
    limiter.record_failure_at("k", ms(101));
    assert!(limiter.check_at("k", ms(102)).is_ok());
}

#[test]
fn login_failures_outside_window_are_forgotten() {
    let mut limiter = LoginRateLimiter::new(2, 10, 60);
    limiter.record_failure_at("k", ms(100_000));
    limiter.record_failure_at("k", ms(200_000));
    assert!(limiter.check_at("k", ms(201_000)).is_ok());
}

#[test]
fn login_window_edge_is_exact_to_the_nanosecond() {
    let mut limiter = LoginRateLimiter::new(2, 1, 60);
    limiter.record_failure_at("k", 0);
    limiter.record_failure_at("k", 1_000_000_001);
    assert!(limiter.check_at("k", 1_000_000_002).is_ok());
    let mut edge = LoginRateLimiter::new(2, 1, 60);
    edge.record_failure_at("k", 0);
    edge.record_failure_at("k", 1_000_000_000);
    assert!(edge.check_at("k", 1_000_000_000).is_err());
}

#[test]
fn login_failures_spanning_a_lock_start_over() {
    let mut limiter = LoginRateLimiter::new(2, 300, 10);
    limiter.record_failure_at("k", ms(0));
    limiter.record_failure_at("k", ms(1_000));
    assert!(limiter.check_at("k", ms(5_000)).is_err());
    assert!(limiter.check_at("k", ms(12_000)).is_ok());
    limiter.record_failure_at("k", ms(13_000));
    assert!(limiter.check_at("k", ms(14_000)).is_ok());
}

#[test]
fn login_success_clears_across_other_calls() {
    let mut limiter = LoginRateLimiter::new(1, 300, 600);
    limiter.record_failure_at("k", ms(0));
    assert!(limiter.check_at("k", ms(1)).is_err());
    limiter.record_success("k");
    limiter.record_failure_at("other", ms(2));
    assert!(limiter.check_at("other", ms(3)).is_err());
    assert!(limiter.check_at("k", ms(4)).is_ok());
    assert!(limiter.check("k").is_ok());
}

#[test]
fn login_keys_are_independent() {
    let mut limiter = LoginRateLimiter::new(1, 300, 60);
    limiter.record_failure_at("a", ms(5));
    assert!(limiter.check_at("a", ms(6)).is_err());
    assert!(limiter.check_at("b", ms(6)).is_ok());
}

#[test]
fn login_live_clock_check() {
    let mut limiter = LoginRateLimiter::new(5, 300, 900);
    assert!(limiter.check("x").is_ok());
    limiter.record_failure("x");
    assert!(limiter.check("x").is_ok());
}

#[test]
fn public_limiter_bounds_requests_in_window() {
    let mut limiter = PublicRateLimiter::new(2, 60);
    assert!(limiter.check_and_record_at("ip", ms(100_000)).is_ok());
    assert!(limiter.check_and_record_at("ip", ms(110_000)).is_ok());
    let refused = limiter.check_and_record_at("ip", ms(120_000)).unwrap_err();
    assert_eq!(refused.status, 429);
    assert_eq!(refused.message, "too many public requests, retry in 40s");
    assert!(limiter.check_and_record_at("other", ms(120_000)).is_ok());
    assert!(limiter.check_and_record_at("ip", ms(161_000)).is_ok());
}

#[test]
fn public_window_admits_at_most_max_requests() {
    let mut limiter = PublicRateLimiter::new(3, 60);
    let admitted = (0..10u64)
        .filter(|i| limiter.check_and_record_at("ip", ms(1_000 + i * 5_000)).is_ok())
        .count();
    assert_eq!(admitted, 3);
}

#[test]
fn login_failures_in_one_window_lock_the_key() {
    let mut limiter = LoginRateLimiter::new(2, 300, 1);
    limiter.record_failure_at("k", ms(0));
    assert!(limiter.check_at("k", ms(100)).is_ok());
    limiter.record_failure_at("k", ms(500));
    assert!(limiter.check_at("k", ms(600)).is_err());
    assert!(limiter.check_at("k", ms(1_500)).is_ok());
}

#[test]
fn public_live_clock_check() {
    let mut limiter = PublicRateLimiter::new(1, 60);
    assert!(limiter.check_and_record("ip").is_ok());
    assert!(limiter.check_and_record("ip").is_err());
}

#[test]
fn client_ip_ignores_headers_without_trust() {
    let fwd = Some("1.2.3.4");
    assert_eq!(request_client_ip(fwd, None, peer(9, 9, 9, 9), false), Some(IpAddress::V4(9, 9, 9, 9)));
    assert_eq!(request_client_ip(fwd, None, peer(9, 9, 9, 9), true), Some(IpAddress::V4(1, 2, 3, 4)));
    assert_eq!(
        request_client_ip(None, Some("5.5.5.5"), peer(9, 9, 9, 9), true),
        Some(IpAddress::V4(5, 5, 5, 5))
    );
    assert_eq!(request_client_ip(None, None, None, true), None);
}

#[test]
fn client_ip_skips_unparsable_forwarded_header() {
    assert_eq!(
        request_client_ip(Some("bogus, 1.1.1.1"), Some(" 2.2.2.2 "), peer(3, 3, 3, 3), true),
        Some(IpAddress::V4(2, 2, 2, 2))
    );
    assert_eq!(
        request_client_ip(Some("bogus"), Some("also-bogus"), peer(3, 3, 3, 3), true),
        Some(IpAddress::V4(3, 3, 3, 3))
    );
    assert_eq!(forwarded_ip(Some(" ::1 , 4.4.4.4"), None), Some(IpAddress::V6(1)));
    assert_eq!(forwarded_ip(Some(""), Some("")), None);
    assert_eq!(parse_ip_address("10.0.0.1"), Some(IpAddress::V4(10, 0, 0, 1)));
    assert_eq!(parse_ip_address(" 10.0.0.1"), None);
    assert_eq!(
        parse_socket_address("[::1]:80"),
        Some(SocketAddress { ip: IpAddress::V6(1), port: 80, scope_id: 0 })
    );
    assert_eq!(parse_socket_address("1.2.3.4"), None);
    assert_eq!(pick_client_ip(None, peer(3, 3, 3, 3), true), Some(IpAddress::V4(3, 3, 3, 3)));
}

#[test]
fn login_key_formats_ip_and_lowercased_name() {
    let key = login_rate_limit_key(None, None, "  Admin ", peer(10, 0, 0, 1), false);
    assert_eq!(key, "10.0.0.1:admin");
    let unknown = login_rate_limit_key(None, None, "Bob", None, false);
    assert_eq!(unknown, "unknown:bob");
    let v6 = login_rate_limit_key(Some("::1"), None, "x", None, true);
    assert_eq!(v6, "::1:x");
    let ignored = login_rate_limit_key(Some("not-an-ip"), None, "x", peer(10, 0, 0, 2), true);
    assert_eq!(ignored, "10.0.0.2:x");
}

#[test]
fn ip_text_matches_std_display() {
    assert_eq!(ip_to_string(IpAddress::V4(192, 168, 0, 1)), "192.168.0.1");
    assert_eq!(ip_to_string(IpAddress::V6(0)), "::");
    assert_eq!(
        ip_to_string(IpAddress::V6(0x2001_0db8_0000_0000_0000_8a2e_0370_7334)),
        "2001:db8::8a2e:370:7334"
    );
    assert_eq!(ip_to_string(IpAddress::V6(0xffff_0102_0304)), "::ffff:1.2.3.4");
    assert_eq!(ip_to_string(IpAddress::V6(0x2001_0db8_0000_0001_0000_0000_0000_0001)), "2001:db8:0:1::1");
}

#[test]
fn forwarded_header_candidates() {
    assert_eq!(forwarded_for_text(Some(" 1.2.3.4 , 5.6.7.8")), Some("1.2.3.4".to_string()));
    assert_eq!(forwarded_for_text(Some("  ,x")), None);
    assert_eq!(forwarded_for_text(None), None);
    assert_eq!(real_ip_text(Some(" 7.7.7.7 ")), Some("7.7.7.7".to_string()));
    assert_eq!(real_ip_text(Some("   ")), None);
}

#[test]
fn traced_ip_prefers_forwarded_for() {
    assert_eq!(extract_client_ip(Some(" 1.1.1.1 ,2.2.2.2"), Some("3.3.3.3")), "1.1.1.1");
    assert_eq!(extract_client_ip(None, Some(" 3.3.3.3")), " 3.3.3.3");
    assert_eq!(extract_client_ip(None, None), "unknown");
}

#[test]
fn csrf_verification_reasons() {
    let missing_session = verify_csrf(None, Some("t")).unwrap_err();
    assert_eq!(missing_session.status, 403);
    assert_eq!(missing_session.message, "missing csrf token in session");
    assert_eq!(verify_csrf(Some("t"), None).unwrap_err().message, "missing csrf token header");
    assert_eq!(verify_csrf(Some("t"), Some("u")).unwrap_err().message, "invalid csrf token");
    assert!(verify_csrf(Some("t"), Some("  t ")).is_ok());
    assert_eq!(CSRF_HEADER, "x-csrf-token");
}

#[test]
fn csrf_token_kept_or_created() {
    let (kept, store) = csrf_token_for_session(Some("abc".to_string()));
    assert_eq!(kept, "abc");
    assert!(!store);
    let (fresh, store) = csrf_token_for_session(None);
    assert!(store);
    assert_eq!(fresh.len(), 32);
    assert!(fresh.chars().all(|c| c.is_ascii_hexdigit() && !c.is_ascii_uppercase()));
    assert_eq!(fresh.as_bytes()[12], b'4');
    assert!(matches!(fresh.as_bytes()[16], b'8' | b'9' | b'a' | b'b'));
}

#[test]
fn request_id_kept_or_created() {
    assert_eq!(request_id_for(Some("req-1")), "req-1");
    let fresh = request_id_for(None);
    assert_eq!(fresh.len(), 36);
    assert_eq!(fresh.as_bytes()[14], b'4');
    assert!(matches!(fresh.as_bytes()[19], b'8' | b'9' | b'a' | b'b'));
    assert_eq!(fresh.as_bytes()[8], b'-');
    assert_eq!(fresh.as_bytes()[23], b'-');
}

#[test]
fn api_error_constructors() {
    assert_eq!(ApiError::bad_request("b".to_string()).status, 400);
    assert_eq!(ApiError::unauthorized("u".to_string()).status, 401);
    assert_eq!(ApiError::forbidden("f".to_string()).status, 403);
    assert_eq!(ApiError::not_found("n".to_string()).status, 404);
    assert_eq!(ApiError::too_many_requests("t".to_string()).status, 429);
    assert_eq!(ApiError::internal("i".to_string()).status, 500);
}
