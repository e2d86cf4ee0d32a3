use submora::console::{
    count_diagnostics, diagnostic_counts, optional_resource_snapshot, resource_snapshot,
    CacheDisplay, ConsolePageMeta, FeedbackSignals, PendingState, RefreshState, ResourceSnapshot,
    UserSummary,
};
use submora::diagnostics::{
    attention_count_hint, diagnostic_card, diagnostic_filter_class, diagnostic_status_class,
    diagnostic_status_label, diagnostics_panel_view, diagnostics_summary, filter_count,
    filtered_diagnostics, initial_diagnostic_filter, is_attention_status, matches_filter,
    success_archive_row, DiagnosticFilter, DiagnosticsBody,
};
use submora::ordering::{chars_le, diagnostic_priority, sorted_diagnostics};
use submora::shared::{CurrentUserResponse, LinkDiagnostic, UserCacheStatusResponse, UserDiagnosticsResponse};
use submora::timestamps::format_timestamp;

fn diag(url: &str, status: &str, fetched_at: Option<i64>) -> LinkDiagnostic {
    LinkDiagnostic {
        url: url.to_string(),
        status: status.to_string(),
        detail: None,
        http_status: None,
        content_type: None,
        body_bytes: None,
        redirect_count: 0,
        is_html: false,
        fetched_at,
    }
}

#[test]
fn timestamps_show_utc_minutes() {
    assert_eq!(format_timestamp(Some(0), "-"), "1970-01-01 00:00 UTC");
    assert_eq!(format_timestamp(Some(1_546_300_800), "-"), "2019-01-01 00:00 UTC");
    assert_eq!(format_timestamp(None, "尚未生成"), "尚未生成");
    assert_eq!(format_timestamp(Some(i64::MAX), "-"), i64::MAX.to_string());
}

#[test]
fn cache_display_from_status() {
    let empty = CacheDisplay::from_status(None);
    assert_eq!(empty.state, "empty");
    assert_eq!((empty.line_count, empty.body_bytes), (0, 0));
    assert_eq!(empty.generated_at, "尚未生成");
    assert_eq!(empty.expires_at, "不适用");
    assert_eq!(empty.state_label(), "为空");
    assert_eq!(empty.state_class(), "tag--cool");
    let status = UserCacheStatusResponse {
        username: "u".into(),
        state: "stale".into(),
        line_count: 3,
        body_bytes: 10,
        generated_at: Some(0),
        expires_at: None,
    };
    let shown = CacheDisplay::from_status(Some(&status));
    assert_eq!(shown.state_class(), "tag--danger");
    assert_eq!(shown.state_label(), "陈旧");
    assert_eq!(shown.generated_at, "1970-01-01 00:00 UTC");
    assert_eq!(shown.expires_at, "不适用");
    assert_eq!(shown.line_count, 3);
}

#[test]
fn page_meta_for_signed_in_and_out() {
    let out = ConsolePageMeta::build("login", None, None);
    assert!(!out.is_authenticated);
    assert_eq!(out.active_mode, "login");
    assert_eq!(out.shell_title, "登录");
    assert_eq!(out.selected_route, "/{username}");
    let user = Some(CurrentUserResponse { username: "root".into() });
    let dash = ConsolePageMeta::build("login", None, user.clone());
    assert_eq!(dash.active_mode, "dashboard");
    assert_eq!(dash.shell_title, "订阅组管理");
    assert_eq!(dash.current_username, "root");
    let detail = ConsolePageMeta::build("user", Some("alpha".into()), user);
    assert_eq!(detail.selected_route, "/alpha");
    assert_eq!(detail.shell_title, "订阅组详情");
    assert_eq!(detail.shell_summary, "编辑订阅组源链接，查看公开订阅缓存与抓取诊断。");
    assert_eq!(detail.selected_username.as_deref(), Some("alpha"));
}

#[test]
fn user_summary_counts() {
    let d = UserDiagnosticsResponse {
        username: "u".into(),
        diagnostics: vec![diag("a", "error", None), diag("b", "success", None), diag("c", "pending", None), diag("d", "error", None)],
    };
    assert_eq!(diagnostic_counts(Some(&d)), (1, 2, 0, 1));
    assert_eq!(diagnostic_counts(None), (0, 0, 0, 0));
    assert_eq!(count_diagnostics(&d.diagnostics, "error"), 2);
    assert!(UserSummary::build(None, 1, "", None, None).is_none());
    let s = UserSummary::build(Some("u".into()), 5, "http://a\n\n http://b \n", None, Some(&d)).unwrap();
    assert_eq!(s.selected_route, "/u");
    assert_eq!(s.selected_link_count, 2);
    assert_eq!(s.attention_count(), 3);
    assert_eq!(s.cache_badge_class(), "tag tag--cool");
    assert_eq!(s.user_count, 5);
}

#[test]
fn feedback_and_refresh_state() {
    let mut f = FeedbackSignals::new();
    f.set_status("ok".into());
    f.set_error("bad".into());
    assert_eq!(f.status_message.as_deref(), Some("ok"));
    assert_eq!(f.error_message.as_deref(), Some("bad"));
    f.clear();
    assert!(f.status_message.is_none() && f.error_message.is_none());
    let mut r = RefreshState::new();
    r.bump_after_auth_change();
    assert_eq!(r, RefreshState { auth: 1, users: 1, links: 1, diagnostics: 1, cache: 1 });
    r.bump_after_cache_refresh();
    assert_eq!((r.cache, r.diagnostics, r.links), (2, 2, 1));
    r.bump_after_user_change();
    assert_eq!((r.users, r.links), (2, 2));
    let p = PendingState::new();
    assert!(!p.login && !p.save_links && !p.clear_cache);
}

#[test]
fn resource_snapshots() {
    let ok = resource_snapshot::<u8>(Some(Ok(3)));
    assert_eq!((ok.value, ok.error), (Some(3), None));
    let err = resource_snapshot::<u8>(Some(Err("e".into())));
    assert_eq!((err.value, err.error.as_deref()), (None, Some("e")));
    let none = optional_resource_snapshot::<u8>(Some(Ok(None)));
    assert!(none.value.is_none() && none.error.is_none());
    let loading = optional_resource_snapshot::<u8>(None);
    assert!(loading.value.is_none());
    let d: ResourceSnapshot<u8> = ResourceSnapshot::default();
    assert!(d.value.is_none() && d.error.is_none());
}

#[test]
fn diagnostics_sort_by_urgency_time_and_url() {
    let input = vec![
        diag("s", "success", Some(5)),
        diag("b", "error", Some(1)),
        diag("a", "error", Some(1)),
        diag("n", "error", None),
        diag("p", "pending", Some(9)),
        diag("x", "weird", Some(100)),
        diag("c", "error", Some(7)),
        diag("k", "blocked", Some(2)),
    ];
    let sorted = sorted_diagnostics(input);
    let urls: Vec<&str> = sorted.iter().map(|d| d.url.as_str()).collect();
    assert_eq!(urls, vec!["c", "a", "b", "n", "k", "p", "s", "x"]);
}

#[test]
fn diagnostics_sort_is_stable() {
    let mut first = diag("same", "error", Some(1));
    first.redirect_count = 1;
    let mut second = diag("same", "error", Some(1));
    second.redirect_count = 2;
    let sorted = sorted_diagnostics(vec![first.clone(), diag("z", "blocked", None), second.clone()]);
    assert_eq!(sorted, vec![first, second, diag("z", "blocked", None)]);
    assert!(sorted_diagnostics(vec![]).is_empty());
}

#[test]
fn text_order_and_priority() {
    let a: Vec<char> = "ab".chars().collect();
    let b: Vec<char> = "abc".chars().collect();
    assert!(chars_le(&a, &b));
    assert!(!chars_le(&b, &a));
    assert_eq!(diagnostic_priority("blocked"), 1);
    assert_eq!(diagnostic_priority("nope"), 4);
}

#[test]
fn diagnostic_filters_and_counts() {
    let ds = vec![diag("a", "error", None), diag("b", "success", None), diag("c", "blocked", None)];
    assert_eq!(filter_count(&ds, DiagnosticFilter::Attention), 2);
    assert_eq!(filter_count(&ds, DiagnosticFilter::All), 3);
    assert_eq!(filter_count(&ds, DiagnosticFilter::Pending), 0);
    assert!(matches_filter(DiagnosticFilter::Success, &ds[1]));
    assert!(!matches_filter(DiagnosticFilter::Error, &ds[1]));
    assert_eq!(filtered_diagnostics(&ds, DiagnosticFilter::Blocked), vec![ds[2].clone()]);
    assert!(is_attention_status("pending"));
    assert!(!is_attention_status("success"));
    assert_eq!(DiagnosticFilter::all().len(), 6);
    assert_eq!(DiagnosticFilter::Attention.label(), "需关注");
    assert_eq!(DiagnosticFilter::Success.test_id(), "diagnostic-filter-success");
    assert_eq!(diagnostic_filter_class(true), "button button--ghost diagnostic-filter diagnostic-filter--active");
}

#[test]
fn diagnostic_summaries() {
    let waiting = diagnostics_summary(0, 0, 0, DiagnosticFilter::All);
    assert_eq!(waiting.headline, "等待首次抓取");
    assert_eq!(waiting.tone_class, "diagnostics-summary--cool");
    let urgent = diagnostics_summary(3, 1, 4, DiagnosticFilter::Error);
    assert_eq!(urgent.headline, "3 条记录需要优先处理");
    assert_eq!(urgent.note, "错误、已拦截和待处理项已经自动排到前面；当前筛选为“错误”。");
    let fine = diagnostics_summary(0, 2, 2, DiagnosticFilter::All);
    assert_eq!(fine.headline, "2 条记录已全部成功");
    assert_eq!(fine.tone_class, "diagnostics-summary--success");
}

#[test]
fn diagnostic_labels_and_hints() {
    assert_eq!(diagnostic_status_label("weird"), "错误");
    assert_eq!(diagnostic_status_class("pending"), "diagnostic-status--pending");
    assert_eq!(attention_count_hint("blocked"), Some("目标被安全策略拦截，没有进入公共输出。"));
    assert_eq!(attention_count_hint("success"), None);
}

#[test]
fn diagnostic_card_texts() {
    let mut d = diag("http://a", "error", None);
    d.detail = Some("Fetch completed successfully".into());
    d.http_status = Some(502);
    d.body_bytes = Some(12);
    d.redirect_count = 1;
    d.is_html = true;
    let card = diagnostic_card(&d);
    assert_eq!(card.card_class, "diagnostic-card diagnostic-card--error");
    assert_eq!(card.detail, "抓取成功");
    assert_eq!(card.http_status, "HTTP 502");
    assert_eq!(card.content_type, "未知内容类型");
    assert_eq!(card.body_bytes, "12 字节");
    assert_eq!(card.fetched_at, "尚未抓取");
    assert_eq!(card.redirect_label, "1 次重定向");
    assert_eq!(card.body_kind, "HTML 已归一化");
    assert_eq!(card.attention_hint, Some("抓取失败，公共输出会跳过这条内容。"));
    let plain = diagnostic_card(&diag("u", "success", None));
    assert_eq!(plain.detail, "未记录诊断详情");
    assert_eq!(plain.http_status, "无状态");
    assert_eq!(plain.redirect_label, "0 次重定向");
    let row = success_archive_row(&d);
    assert_eq!(row.body_bytes, "12 字节");
}

#[test]
fn diagnostics_panel_decisions() {
    let payload = UserDiagnosticsResponse {
        username: "u".into(),
        diagnostics: vec![diag("ok", "success", Some(1)), diag("bad", "error", Some(1))],
    };
    let v = diagnostics_panel_view(Some(payload.clone()), None, 1, 1, 0, 0, DiagnosticFilter::Attention);
    assert_eq!(v.sorted[0].url, "bad");
    assert_eq!(v.attention.len(), 1);
    assert_eq!(v.successes.len(), 1);
    assert_eq!(v.body, DiagnosticsBody::Listed);
    assert!(v.show_archive && v.show_filters);
    assert_eq!(v.attention_count, 1);
    let healthy = UserDiagnosticsResponse { username: "u".into(), diagnostics: vec![diag("ok", "success", None)] };
    let h = diagnostics_panel_view(Some(healthy), None, 1, 0, 0, 0, DiagnosticFilter::Attention);
    assert_eq!(h.body, DiagnosticsBody::AllHealthy);
    let none = diagnostics_panel_view(Some(payload.clone()), None, 1, 1, 0, 0, DiagnosticFilter::Pending);
    assert_eq!(none.body, DiagnosticsBody::NothingMatches);
    assert!(!none.show_archive);
    let failed = diagnostics_panel_view(Some(payload), Some("boom".into()), 0, 0, 0, 0, DiagnosticFilter::All);
    assert_eq!(failed.body, DiagnosticsBody::Failed("boom".into()));
    let loading = diagnostics_panel_view(None, None, 0, 0, 0, 0, DiagnosticFilter::All);
    assert_eq!(loading.body, DiagnosticsBody::Loading);
    let empty = UserDiagnosticsResponse { username: "u".into(), diagnostics: vec![] };
    assert_eq!(diagnostics_panel_view(Some(empty), None, 0, 0, 0, 0, DiagnosticFilter::All).body, DiagnosticsBody::NoData);
}

#[test]
fn diagnostics_panel_starts_on_attention() {
    assert_eq!(initial_diagnostic_filter(), DiagnosticFilter::Attention);
}
