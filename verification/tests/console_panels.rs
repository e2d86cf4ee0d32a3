use submora::client::{
    cached_csrf_token, clear_csrf_cache, failure_message, forgets_token, needs_csrf,
    request_method, retry_with_fresh_token, security_header_pairs, signed_out, success_message,
    unavailable, user_api_path, CsrfCache, HttpMethod, ServiceAction, APP_NAME,
};
use submora::console::CacheDisplay;
use submora::panels::{
    cache_confirm_step, cache_panel_view, cache_presentation, cache_refresh_label, editor_view,
    initial_cache_confirm, route_link_class, CacheConfirmEvent,
    topbar_workspace_label, user_row_view, users_panel_view, UsersBody,
};
use submora::shared::UserSummary;
use submora::shell::{
    account_button_label, console_layout, control_plane_view, login_button_label, not_found_view,
    overview_view, shell_mode_label, shell_mode_summary, shell_spotlight_label,
    shell_spotlight_summary, shell_view, ConsoleLayout,
};
use submora::shell::Route;
use submora::site::fallback_index_html;

fn display(state: &str) -> CacheDisplay {
    CacheDisplay {
        state: state.into(),
        line_count: 0,
        body_bytes: 0,
        generated_at: String::new(),
        expires_at: String::new(),
    }
}

#[test]
fn cache_verdicts() {
    assert_eq!(cache_presentation("fresh").tone_class, "cache-verdict--success");
    assert_eq!(cache_presentation("stale").headline, "快照已需要处理");
    assert_eq!(cache_presentation("empty").action_hint, "建议立即生成");
    assert_eq!(cache_presentation("?").route_note, "暂时无法判断公开订阅会返回什么");
    assert_eq!(cache_refresh_label("expired"), "立即刷新快照");
    assert_eq!(cache_refresh_label("other"), "刷新缓存");
}

#[test]
fn cache_panel_labels() {
    let idle = cache_panel_view(&display("fresh"), false, false, false);
    assert!(!idle.busy);
    assert_eq!(idle.refresh_label, "重新构建快照");
    assert_eq!(idle.clear_label, "清空缓存");
    assert_eq!(idle.state_label, "新鲜");
    let confirming = cache_panel_view(&display("fresh"), false, false, true);
    assert_eq!(confirming.clear_label, "请在下方确认");
    let busy = cache_panel_view(&display("empty"), true, true, true);
    assert!(busy.busy);
    assert_eq!(busy.refresh_label, "刷新中…");
    assert_eq!(busy.clear_label, "清空中…");
    assert_eq!(busy.confirm_label, "清空中…");
}

#[test]
fn editor_reports_format_issues() {
    let v = editor_view("http://a\nftp://b\n\nhttp://a\nhttp://c\nhttp://d\nhttp://e\nhttp://f", true, false, false, false, None);
    assert_eq!(v.stats.invalid_count, 1);
    assert_eq!(v.stats.normalized_count, 5);
    assert_eq!(v.stats.normalized_preview.len(), 4);
    assert_eq!(v.preview_overflow, 1);
    assert!(v.field_note_is_error);
    assert_eq!(v.field_note, "发现 1 条格式不正确的链接，保存前需要修正。首条问题：ftp://b");
    assert_eq!(v.status_title, "发现格式问题");
    assert!(!v.save_enabled);
    assert_eq!(v.save_label, "保存并归一化");
}

#[test]
fn editor_states() {
    let synced = editor_view("http://a", false, false, false, false, None);
    assert_eq!(synced.status_title, "当前内容已同步");
    assert_eq!(synced.field_note, "仅支持 HTTP/HTTPS，私网地址和不可解析目标会被拒绝。");
    assert!(!synced.save_enabled);
    let draft = editor_view("http://a", true, false, false, false, None);
    assert!(draft.save_enabled);
    assert_eq!(draft.status_detail, "当前草稿将按填写顺序保存，共 1 条。");
    assert_eq!(draft.save_label, "保存源链接");
    let failed = editor_view("http://a", true, true, false, true, Some("服务端错误".into()));
    assert_eq!(failed.field_note, "服务端错误");
    assert_eq!(failed.editor_class, "source-editor source-editor--error");
    assert_eq!(failed.save_label, "保存中…");
    assert_eq!(failed.delete_label, "请在下方确认");
    assert!(failed.busy);
    let empty = editor_view("", true, false, false, false, None);
    assert_eq!(empty.empty_preview_note, "当前草稿为空，保存后会清空这个订阅组的源链接。");
    assert_eq!(empty.status_detail, "保存后会清空这个订阅组的源链接。");
}

#[test]
fn group_list_search() {
    let list = vec![
        UserSummary { username: "Alpha".into() },
        UserSummary { username: "beta".into() },
        UserSummary { username: "alphabet".into() },
    ];
    let all = users_panel_view(Some(list.clone()), "  ", false);
    assert!(all.sorting_enabled);
    assert_eq!(all.visible.len(), 3);
    assert_eq!(all.body, UsersBody::Listed);
    let found = users_panel_view(Some(list.clone()), " ALPH ", true);
    assert!(!found.sorting_enabled);
    assert_eq!(found.visible, vec![list[0].clone(), list[2].clone()]);
    assert_eq!(found.create_label, "创建中…");
    assert_eq!(users_panel_view(Some(list), "zzz", false).body, UsersBody::NoMatches);
    assert_eq!(users_panel_view(Some(vec![]), "", false).body, UsersBody::NoGroups);
    assert_eq!(users_panel_view(None, "", false).body, UsersBody::Loading);
}

#[test]
fn group_rows() {
    let first = user_row_view(0, "a", 3, Some("a"), false);
    assert!(first.is_selected && !first.can_move_up && first.can_move_down);
    assert_eq!(first.order_label, "#1");
    assert_eq!(first.public_route, "/a");
    assert_eq!(first.card_class, "user-card user-card--selected");
    let last = user_row_view(2, "c", 3, None, true);
    assert!(!last.is_selected && last.can_move_up && !last.can_move_down);
    assert_eq!(last.up_label, "排序中…");
    assert_eq!(last.edit_button_class, "button button--ghost button--compact");
}

#[test]
fn shell_labels() {
    assert_eq!(route_link_class(Some("user"), "user"), "route-link route-link--active");
    assert_eq!(route_link_class(None, "user"), "route-link");
    assert_eq!(topbar_workspace_label("short"), "short");
    assert_eq!(topbar_workspace_label("abcdefghijklmnopqrstuvwxyz"), "abcdefghijklmnopqrs...");
    assert_eq!(shell_spotlight_label(Some("account"), None), "账户中心");
    assert_eq!(shell_spotlight_label(Some("account"), Some("u")), "当前订阅组");
    assert_eq!(shell_spotlight_summary(None, Some("u"), "d"), "公开订阅地址 /u，这里集中处理源链接编辑、缓存快照和抓取诊断。");
    assert_eq!(shell_spotlight_summary(Some("dashboard"), None, "d"), "d");
    assert_eq!(shell_mode_label(Some("user")), "订阅组详情");
    assert_eq!(shell_mode_summary(Some("user"), false), "先从左侧订阅组列表选中对象，再进入具体编辑和诊断流程。");
    assert_eq!(shell_mode_summary(Some("user"), true), "当前视图聚焦单个订阅组，方便连续编辑和排查。");
}

#[test]
fn shell_frame() {
    let v = shell_view("T", "S", false, Some("user"), Some("alpha"));
    assert_eq!(v.page_class, "shell-page shell-page--app");
    assert_eq!(v.user_link_class, "route-link route-link--active");
    assert_eq!(v.spotlight_title, "alpha");
    assert_eq!(v.spotlight_route.as_deref(), Some("/alpha"));
    assert_eq!(v.selected_nav, Some(("alpha".to_string(), "alpha".to_string())));
    let c = shell_view("T", "S", true, None, None);
    assert_eq!(c.content_class, "content content--compact");
    assert_eq!(c.spotlight_title, "T");
    assert_eq!(c.spotlight_summary, "S");
    assert!(c.selected_nav.is_none());
}

#[test]
fn overview_and_session_panel() {
    let summary = submora::console::UserSummary::build(Some("u".into()), 1, "", None, None).unwrap();
    let o = overview_view(&summary);
    assert_eq!(o.attention_badge_label, "当前无待处理项");
    assert_eq!(o.attention_badge_class, "tag tag--success");
    assert_eq!(o.cache_label, "为空");
    let s = control_plane_view(Some("u"), true);
    assert_eq!(s.selection_summary, "当前选中 u，公开订阅地址 /u");
    assert_eq!(s.logout_label, "退出中…");
    let none = control_plane_view(None, false);
    assert_eq!(none.selection_state, "等待选择");
    assert_eq!(login_button_label(false), "登录");
    assert_eq!(account_button_label(true), "更新中…");
}

#[test]
fn page_layouts() {
    assert_eq!(console_layout(false, "account", true), ConsoleLayout::SignIn);
    assert_eq!(console_layout(true, "account", true), ConsoleLayout::Account);
    assert_eq!(console_layout(true, "user", true), ConsoleLayout::Workspace);
    assert_eq!(console_layout(true, "dashboard", false), ConsoleLayout::ChooseGroup);
    let (route, summary) = not_found_view(&["a".to_string(), "b".to_string()]);
    assert_eq!(route, "/a/b");
    assert_eq!(summary, "没有为 /a/b 注册 Dioxus 路由。");
    assert_eq!(not_found_view(&[]).0, "/");
}

#[test]
fn api_client_rules() {
    assert_eq!(request_method("PUT"), Ok(HttpMethod::Put));
    assert_eq!(request_method("PATCH"), Err("不支持的请求方法：PATCH".to_string()));
    let mut cache = CsrfCache::new();
    assert_eq!(cached_csrf_token(&cache), None);
    cache.remember("tok".into());
    assert_eq!(cached_csrf_token(&cache).as_deref(), Some("tok"));
    clear_csrf_cache(&mut cache);
    assert!(cache.token.is_none());
    assert!(!needs_csrf("GET") && !needs_csrf("HEAD") && needs_csrf("POST"));
    assert!(retry_with_fresh_token(403) && !retry_with_fresh_token(401));
    assert!(signed_out(401));
    assert_eq!(failure_message(None, 502), "请求失败，状态码 502");
    assert_eq!(failure_message(Some("links: must not be empty"), 400), "链接：不能为空");
    assert_eq!(unavailable(), "Web API 客户端仅在 wasm32 目标下可用");
    assert_eq!(user_api_path("u", "/links"), "/api/users/u/links");
    assert_eq!(success_message(ServiceAction::ClearCache), "缓存已清空");
    assert!(forgets_token(ServiceAction::Logout) && !forgets_token(ServiceAction::Login));
    assert_eq!(security_header_pairs()[1], ("x-frame-options", "DENY"));
    assert_eq!(APP_NAME, "Submora");
}

#[test]
fn fallback_page_names_service_and_dist() {
    let page = fallback_index_html("Submora", "dist");
    assert!(page.starts_with("<!doctype html>"));
    assert!(page.contains("<title>Submora service</title>"));
    assert!(page.contains("<h1>Submora service is running</h1>"));
    assert!(page.contains("<code>dist</code>"));
    assert!(page.contains("<li><code>GET /{username}</code></li>"));
    assert!(page.ends_with("</html>"));
}

#[test]
fn routes_open_console_modes() {
    assert_eq!(Route::Dashboard.console_mode(), Some("dashboard"));
    assert_eq!(Route::Login.console_mode(), Some("login"));
    assert_eq!(Route::Account.console_mode(), Some("account"));
    let detail = Route::UserDetail { username: "alpha".into() };
    assert_eq!(detail.console_mode(), Some("user"));
    assert_eq!(detail.route_user().as_deref(), Some("alpha"));
    let unknown = Route::NotFound { segments: vec!["x".into()] };
    assert_eq!(unknown.console_mode(), None);
    assert_eq!(unknown.route_user(), None);
    assert_eq!(Route::Account.route_user(), None);
}

#[test]
fn cache_clear_needs_confirmation() {
    let start = initial_cache_confirm();
    assert!(!start);
    let (shown, sent) = cache_confirm_step(start, false, CacheConfirmEvent::ClearClicked);
    assert_eq!((shown, sent), (true, false));
    assert_eq!(cache_confirm_step(shown, false, CacheConfirmEvent::CancelClicked), (false, false));
    assert_eq!(cache_confirm_step(shown, false, CacheConfirmEvent::ConfirmClicked), (false, true));
    assert_eq!(cache_confirm_step(false, false, CacheConfirmEvent::ConfirmClicked), (false, false));
    assert_eq!(cache_confirm_step(shown, true, CacheConfirmEvent::ConfirmClicked), (true, false));
    assert_eq!(cache_confirm_step(false, true, CacheConfirmEvent::ClearClicked), (false, false));
    assert_eq!(cache_confirm_step(true, true, CacheConfirmEvent::GroupChanged), (false, false));
}
