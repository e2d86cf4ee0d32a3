use submora::cache::{
    build_snapshot, cache_status_for, count_non_empty_lines, empty_status, epoch_seconds, now_epoch,
    snapshot_from_columns, snapshot_hit, snapshot_state, status_from_snapshot,
    status_from_snapshot_at, store_snapshot_if_current, utf8_byte_len, CachedSnapshot,
};
use submora::config::{override_candidates, parse_fetch_host_overrides, HostOverrides, ServerConfig};
use submora::env::{env_value, read_list, read_positive_i64, read_unsigned};
use submora::links::{analyze_links, count_links, is_valid_source_url, parse_links};
use submora::messages::{
    extract_field_validation_error, translate_backend_message, translate_detail,
    translate_diagnostic_detail,
};
use submora::net::{IpAddress, SocketAddress};

fn vars(pairs: &[(&str, &str)]) -> Vec<(String, String)> {
    pairs.iter().map(|(k, v)| (k.to_string(), v.to_string())).collect()
}

fn snapshot(expires_at: i64, version: i64) -> CachedSnapshot {
    CachedSnapshot {
        username: "u".into(),
        content: "a\nb".into(),
        line_count: 2,
        body_bytes: 3,
        generated_at: 10,
        expires_at,
        source_config_version: version,
    }
}

#[test]
fn source_urls() {
    assert!(is_valid_source_url("https://example.com/feed"));
    assert!(is_valid_source_url("http://h"));
    assert!(!is_valid_source_url("https://"));
    assert!(!is_valid_source_url("https:///path"));
    assert!(!is_valid_source_url("ftp://x"));
    assert!(!is_valid_source_url("http://a b"));
}

#[test]
fn links_are_trimmed_nonblank_lines() {
    assert_eq!(parse_links(" http://a \r\n\n  \nhttp://b"), vec!["http://a".to_string(), "http://b".to_string()]);
    assert_eq!(count_links(""), 0);
    assert_eq!(count_links("x\n\ny\n"), 2);
}

#[test]
fn draft_analysis_counts() {
    let s = analyze_links("http://a\n\nhttp://a\nnope\nhttp://b\nbad", 1);
    assert_eq!(s.raw_line_count, 6);
    assert_eq!(s.non_empty_count, 5);
    assert_eq!(s.blank_count, 1);
    assert_eq!(s.duplicate_count, 1);
    assert_eq!(s.invalid_count, 2);
    assert_eq!(s.first_invalid.as_deref(), Some("nope"));
    assert_eq!(s.normalized_count, 2);
    assert_eq!(s.normalized_preview, vec!["http://a".to_string()]);
    let empty = analyze_links("", 4);
    assert_eq!(empty.raw_line_count, 0);
    assert_eq!(analyze_links("\n", 4).blank_count, 2);
}

#[test]
fn snapshot_freshness_and_status() {
    let s = snapshot(100, 7);
    assert!(s.is_fresh(99));
    assert!(!s.is_fresh(100));
    assert_eq!(snapshot_state(&s, 50), "fresh");
    assert_eq!(snapshot_state(&s, 150), "expired");
    let st = status_from_snapshot_at("x", Some(&s), 150);
    assert_eq!(st.username, "u");
    assert_eq!(st.state, "expired");
    assert_eq!((st.generated_at, st.expires_at), (Some(10), Some(100)));
    let e = empty_status("x");
    assert_eq!((e.state.as_str(), e.line_count, e.generated_at), ("empty", 0, None));
    assert_eq!(status_from_snapshot("x", None).state, "empty");
    assert_eq!(cache_status_for("x", Some(&s), 8, 0).state, "empty");
    assert_eq!(cache_status_for("x", Some(&s), 7, 0).state, "fresh");
    assert!(snapshot_hit(Some(&s), 7, 99));
    assert!(!snapshot_hit(Some(&s), 6, 99));
    assert!(!snapshot_hit(None, 7, 0));
}

#[test]
fn building_snapshots() {
    let s = build_snapshot("u", "a\n \nb\n", 60, 3, 1000);
    assert_eq!(s.line_count, 2);
    assert_eq!(s.body_bytes, 6);
    assert_eq!((s.generated_at, s.expires_at, s.source_config_version), (1000, 1060, 3));
    let far = build_snapshot("u", "", u64::MAX, 1, i64::MAX - 5);
    assert_eq!(far.expires_at, i64::MAX);
    let row = snapshot_from_columns("u".into(), "c".into(), -1, 5_000_000_000_000, 1, 2, 3);
    assert_eq!(row.line_count, 0);
    assert_eq!(row.body_bytes, 5_000_000_000_000);
    let neg = snapshot_from_columns("u".into(), "c".into(), 4, -9, 1, 2, 3);
    assert_eq!((neg.line_count, neg.body_bytes), (4, 0));
    assert_eq!(count_non_empty_lines(" a \n\n b"), 2);
    assert_eq!(utf8_byte_len("é中"), 5);
    assert!(now_epoch() > 1_600_000_000);
}

#[test]
fn message_wording() {
    assert_eq!(translate_detail("Please login"), "请先登录");
    assert_eq!(translate_detail("too many login attempts, retry in 12s"), "登录尝试过多，请在 12 秒后重试");
    assert_eq!(translate_detail("maximum 5 users allowed"), "最多允许 5 个订阅组");
    assert_eq!(translate_detail("maximum 5 allowed"), "最多允许 5 项");
    assert_eq!(translate_detail("something else"), "something else");
    assert_eq!(translate_diagnostic_detail("No fetch attempt recorded yet"), "尚未记录抓取尝试");
    assert_eq!(translate_backend_message("username: invalid username"), "用户名：用户名不合法");
    assert_eq!(translate_backend_message("invalid csrf token"), "CSRF 令牌无效");
}

#[test]
fn field_errors() {
    assert_eq!(extract_field_validation_error("links: bad  ", "links", "链接").as_deref(), Some("bad"));
    assert_eq!(extract_field_validation_error("链接：坏了", "links", "链接").as_deref(), Some("坏了"));
    assert_eq!(extract_field_validation_error("链接: 坏", "links", "链接").as_deref(), Some("坏"));
    assert_eq!(extract_field_validation_error("other", "links", "链接"), None);
}

#[test]
fn environment_readers() {
    let v = vars(&[("A", "1"), ("A", "2"), ("P", "+7"), ("Z", "0"), ("N", "-3")]);
    assert_eq!(env_value(&v, "A").map(|s| s.as_str()), Some("1"));
    assert_eq!(read_unsigned(env_value(&v, "P"), 100, 5, false), 7);
    assert_eq!(read_unsigned(env_value(&v, "Z"), 100, 5, true), 5);
    assert_eq!(read_unsigned(env_value(&v, "Z"), 100, 5, false), 0);
    assert_eq!(read_unsigned(None, 100, 5, false), 5);
    assert_eq!(read_positive_i64(env_value(&v, "N"), 9), 9);
    assert_eq!(read_positive_i64(env_value(&v, "A"), 9), 1);
    assert_eq!(read_list(" a, ,b ,", ','), vec!["a".to_string(), "b".to_string()]);
}

#[test]
fn host_override_entries() {
    let c = override_candidates(" api.example = 1.2.3.4:443 | bad ,novalue, x=");
    assert_eq!(c.len(), 2);
    assert_eq!(c[0].0, "api.example");
    assert_eq!(c[0].1, vec!["1.2.3.4:443".to_string(), "bad".to_string()]);
    assert_eq!(c[1].0, "x");
    assert!(c[1].1.is_empty());
    let a = SocketAddress { ip: IpAddress::V4(1, 2, 3, 4), port: 443, scope_id: 0 };
    let b = SocketAddress { ip: IpAddress::V4(5, 6, 7, 8), port: 80, scope_id: 0 };
    let o = HostOverrides::from_parsed(vec![
        ("h".to_string(), vec![Some(a), None]),
        ("empty".to_string(), vec![None]),
        ("h".to_string(), vec![Some(b)]),
    ]);
    assert_eq!(o.get("h"), Some(vec![b]));
    assert_eq!(o.get("empty"), None);
    assert_eq!(o.to_pairs(), vec![("h".to_string(), vec![b])]);
    assert_eq!(HostOverrides::new().get("h"), None);
}

#[test]
fn server_config_from_environment() {
    let v = vars(&[
        ("PORT", "9090"),
        ("LOGIN_MAX_ATTEMPTS", "0"),
        ("SESSION_TTL_MINUTES", "30"),
        ("TRUST_PROXY_HEADERS", "true"),
        ("CORS_ALLOW_ORIGIN", "https://a, ,https://b"),
        ("DB_MAX_CONNECTIONS", "12"),
        ("HOST", "127.0.0.1"),
        ("FETCH_HOST_OVERRIDES", "a.com=1.2.3.4:443"),
    ]);
    let c = ServerConfig::from_env(&v);
    assert_eq!(
        c.fetch_host_overrides.get("a.com"),
        Some(vec![SocketAddress { ip: IpAddress::V4(1, 2, 3, 4), port: 443, scope_id: 0 }])
    );
    assert_eq!(c.port, 9090);
    assert_eq!(c.login_max_attempts, 5);
    assert_eq!(c.session_ttl_minutes, 30);
    assert!(c.trust_proxy_headers);
    assert!(!c.cookie_secure);
    assert_eq!(c.cors_allow_origin, vec!["https://a".to_string(), "https://b".to_string()]);
    assert_eq!(c.db_max_connections, 12);
    assert_eq!(c.web_dist_dir, "dist");
    assert_eq!(c.database_url, "sqlite://data/substore.db?mode=rwc");
    assert_eq!(c.admin_user, "admin");
    assert_eq!(c.public_window_secs, 60);
    let addr = c.socket_addr();
    assert_eq!((addr.ip, addr.port), (IpAddress::V4(127, 0, 0, 1), 9090));
    let d = ServerConfig::from_env(&[]);
    assert_eq!(d.host, IpAddress::V4(0, 0, 0, 0));
    assert_eq!(d.fetch_host_overrides.to_pairs(), vec![]);
    assert_eq!(d.session_ttl_minutes, 10080);
    assert_eq!(d.cors_allow_origin, vec!["http://127.0.0.1:8081".to_string(), "http://localhost:8081".to_string()]);
}

#[test]
fn server_config_unparsable_host() {
    let v = vars(&[
        ("LOGIN_MAX_ATTEMPTS", "0"),
        ("CACHE_TTL_SECS", "abc"),
        ("COOKIE_SECURE", "TRUE"),
        ("HOST", "not-an-ip"),
        ("CORS_ALLOW_ORIGIN", " https://a.example , ,https://b.example"),
    ]);
    let c = ServerConfig::from_env(&v);
    assert_eq!(c.login_max_attempts, 5);
    assert_eq!(c.cache_ttl_secs, 300);
    assert!(!c.cookie_secure);
    assert_eq!(c.host, IpAddress::V4(0, 0, 0, 0));
    assert_eq!(c.cors_allow_origin, vec!["https://a.example".to_string(), "https://b.example".to_string()]);
    let w = ServerConfig::from_env(&vars(&[("HOST", "::1")]));
    assert_eq!(w.host, IpAddress::V6(1));
}

#[test]
fn host_overrides_parsed_from_text() {
    let o = parse_fetch_host_overrides(" a.com = 1.2.3.4:443 | bogus , b.com=, noeq,c.com=[::1]:80");
    assert_eq!(
        o.get("a.com"),
        Some(vec![SocketAddress { ip: IpAddress::V4(1, 2, 3, 4), port: 443, scope_id: 0 }])
    );
    assert_eq!(o.get("c.com"), Some(vec![SocketAddress { ip: IpAddress::V6(1), port: 80, scope_id: 0 }]));
    assert_eq!(o.get("b.com"), None);
    assert_eq!(o.get("noeq"), None);
    assert_eq!(o.to_pairs().len(), 2);
    assert_eq!(parse_fetch_host_overrides("").to_pairs(), vec![]);
}

#[test]
fn epoch_seconds_clamps_the_reading() {
    assert_eq!(epoch_seconds(Some(1_700_000_000)), 1_700_000_000);
    assert_eq!(epoch_seconds(Some(u64::MAX)), i64::MAX);
    assert_eq!(epoch_seconds(Some(i64::MAX as u64)), i64::MAX);
    assert_eq!(epoch_seconds(None), 0);
}

#[test]
fn every_field_prefix_is_worded_with_its_label() {
    let pairs = [
        ("username", "用户名"),
        ("password", "密码"),
        ("new_username", "新用户名"),
        ("new_password", "新密码"),
        ("current_password", "当前密码"),
        ("links", "链接"),
        ("order", "排序"),
    ];
    for (field, label) in pairs {
        for detail in ["invalid csrf token", "must not be empty", ""] {
            assert_eq!(
                translate_backend_message(&format!("{field}: {detail}")),
                format!("{label}：{}", translate_detail(detail))
            );
        }
    }
}

#[test]
fn worded_field_errors_are_found_again() {
    let pairs = [
        ("username", "用户名"),
        ("password", "密码"),
        ("new_username", "新用户名"),
        ("new_password", "新密码"),
        ("current_password", "当前密码"),
        ("links", "链接"),
        ("order", "排序"),
    ];
    for (field, label) in pairs {
        for detail in ["must not be empty", " spaced ", "invalid username"] {
            let worded = translate_backend_message(&format!("{field}: {detail}"));
            assert_eq!(
                extract_field_validation_error(&worded, field, label),
                Some(translate_detail(detail).trim().to_string())
            );
        }
    }
}

#[test]
fn draft_non_empty_count_matches_link_count() {
    for text in ["", "\n", "http://a\n\n  http://b \nftp://x\nhttp://a", "  \r\n x \n"] {
        assert_eq!(analyze_links(text, 0).non_empty_count, count_links(text));
    }
}

#[test]
fn joined_links_read_back_unchanged() {
    for text in ["", "\n\n", " http://a \r\n\nhttp://b\n  ", "x\ny\nx"] {
        let links = parse_links(text);
        assert_eq!(parse_links(&submora::drafts::join_lines(&links)), links);
    }
}

#[test]
fn draft_report_counts_distinct_valid_links() {
    let text = "https://a.example/x\nnot a link\n https://b.example \nhttps://a.example/x\n\nftp://nope";
    let s = analyze_links(text, 1);
    assert_eq!(s.non_empty_count, count_links(text));
    assert_eq!(s.non_empty_count, 5);
    assert_eq!(s.normalized_count, 2);
    assert_eq!(s.duplicate_count, 1);
    assert_eq!(s.invalid_count, 2);
    assert_eq!(s.normalized_preview, vec!["https://a.example/x".to_string()]);
    assert_eq!(s.first_invalid.as_deref(), Some("not a link"));
    assert_eq!(analyze_links(text, 5).normalized_preview.len(), 2);
}

#[test]
fn stale_refresh_is_not_written() {
    let fresh = build_snapshot("u", "a\n", 60, 4, 1000);
    let kept = store_snapshot_if_current(Some(4), fresh.clone()).expect("current version is written");
    assert_eq!(kept.source_config_version, 4);
    assert_eq!(kept.content, "a\n");
    assert!(store_snapshot_if_current(Some(5), fresh.clone()).is_none());
    assert!(store_snapshot_if_current(None, fresh).is_none());
}
