use submora::app_config::{database_url, default_admin, AppConfig, LogConfig, ServerConfig};
use submora::handlers::{
    account_update_input, check_login, deletion_outcome, found_user, hash_new_password,
    hash_password_with_salt,
    insert_failure, insert_failure_for, is_duplicate_failure, links_update_outcome, login_verdict, new_user_name,
    next_rank, order_ranks, request_log_level, signed_in, user_agent_or_dash, validate_links,
    AppError, CreateUserPayload, LogLevel, UpdateAccountPayload,
};
use submora::utils::is_valid_username;

fn vars(pairs: &[(&str, &str)]) -> Vec<(String, String)> {
    pairs.iter().map(|(k, v)| (k.to_string(), v.to_string())).collect()
}

#[test]
fn login_verdict_per_outcome() {
    assert!(login_verdict(Some(true)).is_ok());
    assert!(matches!(login_verdict(Some(false)), Err(AppError::Unauthorized)));
    match login_verdict(None) {
        Err(AppError::InternalError(m)) => assert_eq!(m, "Auth error"),
        _ => panic!("expected an internal error"),
    }
}

#[test]
fn unknown_admin_is_unauthorized() {
    assert!(matches!(check_login(None, "pw"), Err(AppError::Unauthorized)));
}

#[test]
fn malformed_stored_hash_is_internal_error() {
    match check_login(Some("not a phc string"), "pw") {
        Err(AppError::InternalError(m)) => assert_eq!(m, "Auth error"),
        _ => panic!("expected an internal error"),
    }
}

#[test]
fn new_password_signs_in_and_others_do_not() {
    let hash = hash_new_password("s3cret!").ok().expect("hashing works");
    assert!(hash.starts_with("$argon2id$"));
    assert!(check_login(Some(&hash), "s3cret!").is_ok());
    assert!(matches!(check_login(Some(&hash), "wrong"), Err(AppError::Unauthorized)));
}

#[test]
fn hashing_with_a_given_salt() {
    let a = hash_password_with_salt("pw", "c2FsdHNhbHRzYWx0").ok().expect("valid salt");
    let b = hash_password_with_salt("pw", "c2FsdHNhbHRzYWx0").ok().expect("valid salt");
    assert_eq!(a, b);
    assert!(a.contains("c2FsdHNhbHRzYWx0"));
    assert!(check_login(Some(&a), "pw").is_ok());
    match hash_password_with_salt("pw", "!") {
        Err(AppError::InternalError(m)) => assert!(m.starts_with("Hash error: ") && m.len() > 12),
        _ => panic!("expected a hash error"),
    }
}

#[test]
fn account_update_validation() {
    let bad_name = UpdateAccountPayload { new_username: "bad name".into(), new_password: "x".into() };
    match account_update_input(&bad_name) {
        Err(AppError::BadRequest(m)) => assert_eq!(m, "Invalid username format"),
        _ => panic!("expected a bad request"),
    }
    let blank = UpdateAccountPayload { new_username: " root ".into(), new_password: "   ".into() };
    match account_update_input(&blank) {
        Err(AppError::BadRequest(m)) => assert_eq!(m, "Password cannot be empty"),
        _ => panic!("expected a bad request"),
    }
    let ok = UpdateAccountPayload { new_username: " root ".into(), new_password: " pw ".into() };
    match account_update_input(&ok) {
        Ok((u, p)) => {
            assert_eq!(u, "root");
            assert_eq!(p, "pw");
        }
        _ => panic!("expected the trimmed credentials"),
    }
}

#[test]
fn user_names_are_trimmed_and_checked() {
    match new_user_name(&CreateUserPayload { username: "  alpha-feed ".into() }) {
        Ok(u) => assert_eq!(u, "alpha-feed"),
        _ => panic!("expected a name"),
    }
    match new_user_name(&CreateUserPayload { username: "a/b".into() }) {
        Err(AppError::BadRequest(m)) => assert_eq!(m, "Invalid username"),
        _ => panic!("expected a bad request"),
    }
    assert!(is_valid_username("用户_1"));
    assert!(!is_valid_username(""));
    assert!(!is_valid_username(&"a".repeat(65)));
    assert!(is_valid_username(&"a".repeat(64)));
}

#[test]
fn user_names_by_character_and_byte_length() {
    assert!(is_valid_username("ab"));
    assert!(is_valid_username("Zz-09_"));
    assert!(!is_valid_username("a b"));
    assert!(!is_valid_username("a.b"));
    assert!(is_valid_username("用户_1-x"));
    assert!(!is_valid_username(&"é".repeat(33)));
    assert!(is_valid_username(&"é".repeat(32)));
}

#[test]
fn ranks_follow_the_largest() {
    assert_eq!(next_rank(None), 1);
    assert_eq!(next_rank(Some(7)), 8);
    assert_eq!(next_rank(Some(-3)), -2);
}

#[test]
fn duplicate_insert_errors_become_bad_requests() {
    assert!(is_duplicate_failure("UNIQUE constraint failed: users.username"));
    assert!(is_duplicate_failure("ERROR: Duplicate Key Value violates"));
    assert!(!is_duplicate_failure("disk I/O error"));
    match insert_failure(sqlx::Error::Protocol("UNIQUE constraint failed".into())) {
        AppError::BadRequest(m) => assert_eq!(m, "user exists"),
        _ => panic!("expected a bad request"),
    }
    assert!(matches!(insert_failure(sqlx::Error::RowNotFound), AppError::DbError(_)));
}

#[test]
fn insert_failure_answers_by_error_text() {
    match insert_failure_for(sqlx::Error::RowNotFound, "UNIQUE constraint failed: users.username") {
        AppError::BadRequest(m) => assert_eq!(m, "user exists"),
        _ => panic!("expected a bad request"),
    }
    assert!(matches!(
        insert_failure_for(sqlx::Error::RowNotFound, "database is locked"),
        AppError::DbError(sqlx::Error::RowNotFound)
    ));
}

#[test]
fn deletion_and_update_outcomes() {
    assert_eq!(deletion_outcome(1).ok(), Some("deleted"));
    match deletion_outcome(0) {
        Err(AppError::NotFound(m)) => assert_eq!(m, "not found"),
        _ => panic!("expected not found"),
    }
    assert_eq!(links_update_outcome(2, vec!["a".into()]).ok(), Some(vec!["a".to_string()]));
    match links_update_outcome(0, vec![]) {
        Err(AppError::NotFound(m)) => assert_eq!(m, "user not found"),
        _ => panic!("expected not found"),
    }
    assert_eq!(found_user(Some(3)).ok(), Some(3));
    assert!(matches!(found_user::<u8>(None), Err(AppError::NotFound(_))));
}

#[test]
fn links_must_be_http() {
    let links = vec!["https://a.example".to_string(), "ftp://b".to_string(), "gopher://c".to_string()];
    match validate_links(&links) {
        Err(AppError::BadRequest(m)) => assert_eq!(m, "Invalid URL: ftp://b"),
        _ => panic!("expected a bad request"),
    }
    assert!(validate_links(&["http://x".to_string()]).is_ok());
    assert!(validate_links(&[]).is_ok());
}

#[test]
fn order_ranks_are_positions() {
    match order_ranks(&[]) {
        Err(AppError::BadRequest(m)) => assert_eq!(m, "order must not be empty"),
        _ => panic!("expected a bad request"),
    }
    let ranks = order_ranks(&["b".to_string(), "a".to_string()]).ok().unwrap();
    assert_eq!(ranks, vec![("b".to_string(), 0), ("a".to_string(), 1)]);
}

#[test]
fn signed_in_requires_a_session_user() {
    assert_eq!(signed_in(Some("root".into())).ok(), Some("root".to_string()));
    assert!(matches!(signed_in(None), Err(AppError::Unauthorized)));
}

#[test]
fn app_error_answers() {
    let e = AppError::BadRequest("bad".into());
    assert_eq!(e.status_code(), 400);
    assert_eq!(e.body_message(), "bad");
    assert_eq!(e.message(), "Invalid input: bad");
    assert_eq!(AppError::Unauthorized.status_code(), 401);
    assert_eq!(AppError::Unauthorized.body_message(), "Unauthorized");
    assert_eq!(AppError::NotFound("x".into()).message(), "Not found: x");
    assert_eq!(AppError::InternalError("y".into()).status_code(), 500);
    assert_eq!(AppError::InternalError("y".into()).message(), "Internal server error: y");
    let db = AppError::from(sqlx::Error::RowNotFound);
    assert_eq!(db.status_code(), 500);
    assert!(db.message().starts_with("Database error: "));
    match AppError::session_failure("gone") {
        AppError::InternalError(m) => assert_eq!(m, "Session error: gone"),
        _ => panic!("expected an internal error"),
    }
}

#[test]
fn request_logging_levels() {
    assert_eq!(request_log_level(503, "/x"), LogLevel::Error);
    assert_eq!(request_log_level(404, "/healthz"), LogLevel::Warn);
    assert_eq!(request_log_level(200, "/healthz"), LogLevel::Debug);
    assert_eq!(request_log_level(200, "/api"), LogLevel::Info);
    assert_eq!(user_agent_or_dash(None), "-");
    assert_eq!(user_agent_or_dash(Some("curl")), "curl");
}

#[test]
fn app_config_defaults_and_env() {
    let d = ServerConfig::default();
    assert_eq!((d.host.as_str(), d.port, d.cookie_secure), ("0.0.0.0", 8080, false));
    let l = LogConfig::default();
    assert_eq!((l.log_file_path.as_str(), l.level.as_str()), ("app.log", "info"));
    let c = AppConfig::load(&vars(&[("PORT", "9000"), ("COOKIE_SECURE", "true"), ("LOG_LEVEL", "debug")]))
        .ok()
        .unwrap();
    assert_eq!(c.server.port, 9000);
    assert!(c.server.cookie_secure);
    assert_eq!(c.server.host, "0.0.0.0");
    assert_eq!(c.log.level, "debug");
    assert_eq!(c.log.log_file_path, "app.log");
    assert_eq!(c.server.bind_address(), "0.0.0.0:9000");
    let bad = AppConfig::load(&vars(&[("PORT", "70000"), ("COOKIE_SECURE", "yes")])).ok().unwrap();
    assert_eq!(bad.server.port, 8080);
    assert!(!bad.server.cookie_secure);
}

#[test]
fn database_url_and_default_admin() {
    assert_eq!(database_url(&[]), "sqlite://data/substore.db");
    assert_eq!(database_url(&vars(&[("DATABASE_URL", "sqlite://x.db")])), "sqlite://x.db");
    assert_eq!(default_admin(Some(1), &[]), None);
    assert_eq!(default_admin(Some(0), &[]), Some(("admin".to_string(), "admin".to_string())));
    assert_eq!(
        default_admin(None, &vars(&[("ADMIN_USER", "root"), ("ADMIN_PASSWORD", "pw")])),
        Some(("root".to_string(), "pw".to_string()))
    );
}
