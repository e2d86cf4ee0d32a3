use submora::actions::{
    account_target_username, account_update_done, cache_cleared, cache_refreshed,
    draft_status_note, links_saved, login_done, logout_done, move_username_to_edge,
    order_saved, reordered_usernames, saved_links_message, start_action, start_links_save,
    user_created,
    user_deleted, AccountFields,
};
use submora::console::{FeedbackSignals, RefreshState};
use submora::drafts::{
    clear_links_state_for_user, display_links_for_user, has_unsaved_links, join_lines,
    mark_links_saved, remember_links_input, update_draft_map, LinkDraftState,
};
use submora::links::{analyze_links, DraftLinkStats};
use submora::shared::{UserCacheStatusResponse, UserLinksResponse, UserSummary};
use submora::text_map::TextMap;

fn users(names: &[&str]) -> Vec<UserSummary> {
    names.iter().map(|n| UserSummary { username: n.to_string() }).collect()
}

fn stats(normalized: usize, duplicates: usize, blanks: usize) -> DraftLinkStats {
    DraftLinkStats {
        raw_line_count: 0,
        non_empty_count: 0,
        normalized_count: normalized,
        blank_count: blanks,
        duplicate_count: duplicates,
        invalid_count: 0,
        first_invalid: None,
        normalized_preview: vec![],
    }
}

#[test]
fn text_map_holds_latest_value() {
    let mut m = TextMap::new();
    m.insert("a", "1");
    m.insert("b", "2");
    m.insert("a", "3");
    assert_eq!(m.get("a").as_deref(), Some("3"));
    m.remove("a");
    assert_eq!(m.get("a"), None);
    assert_eq!(m.get_or_empty("b"), "2");
    assert_eq!(m.get_or_empty("zz"), "");
}

#[test]
fn joins_lines() {
    assert_eq!(join_lines(&[]), "");
    assert_eq!(join_lines(&["a".to_string()]), "a");
    assert_eq!(join_lines(&["a".to_string(), "b".to_string()]), "a\nb");
}

#[test]
fn drafts_follow_input_and_saves() {
    let mut d = LinkDraftState::new();
    remember_links_input("u", "http://a", &mut d);
    assert_eq!(display_links_for_user("u", &d.saved_by_user, &d.draft_by_user), "http://a");
    assert!(has_unsaved_links(Some("u"), "http://a", &d));
    mark_links_saved("u", "http://a", &mut d);
    assert!(!has_unsaved_links(Some("u"), "http://a", &d));
    assert_eq!(d.draft_by_user.get("u"), None);
    remember_links_input("u", "http://a", &mut d);
    assert_eq!(d.draft_by_user.get("u"), None);
    remember_links_input("u", "http://b", &mut d);
    assert_eq!(display_links_for_user("u", &d.saved_by_user, &d.draft_by_user), "http://b");
    clear_links_state_for_user("u", &mut d);
    assert_eq!(display_links_for_user("u", &d.saved_by_user, &d.draft_by_user), "");
    assert!(!has_unsaved_links(None, "x", &d));
}

#[test]
fn update_draft_map_drops_equal_text() {
    let mut saved = TextMap::new();
    saved.insert("u", "s");
    let mut draft = TextMap::new();
    update_draft_map(&mut draft, &saved, "u", "t");
    assert_eq!(draft.get("u").as_deref(), Some("t"));
    update_draft_map(&mut draft, &saved, "u", "s");
    assert_eq!(draft.get("u"), None);
}

#[test]
fn selecting_and_loading_groups() {
    let mut d = LinkDraftState::new();
    let mut text = String::from("old");
    d.select(Some("u".into()), &mut text);
    assert_eq!(text, "");
    remember_links_input("u", "draft", &mut d);
    text = "draft".into();
    d.select(Some("u".into()), &mut text);
    assert_eq!(text, "draft");
    d.select(Some("v".into()), &mut text);
    assert_eq!(text, "");
    d.select(Some("u".into()), &mut text);
    assert_eq!(text, "draft");
    let payload = UserLinksResponse { username: "u".into(), links: vec!["x".into(), "y".into()] };
    d.apply_loaded(&payload, &mut text);
    assert_eq!(text, "draft");
    assert_eq!(d.saved_by_user.get("u").as_deref(), Some("x\ny"));
    remember_links_input("u", "x\ny", &mut d);
    d.apply_loaded(&payload, &mut text);
    assert_eq!(text, "x\ny");
    d.select(None, &mut text);
    assert_eq!(text, "");
}

#[test]
fn reorders_by_swapping() {
    let list = users(&["a", "b", "c"]);
    assert_eq!(reordered_usernames(&list, "b", -1), Some(vec!["b".to_string(), "a".into(), "c".into()]));
    assert_eq!(reordered_usernames(&list, "c", 1), None);
    assert_eq!(reordered_usernames(&list, "zz", 1), None);
    let down = reordered_usernames(&list, "a", 1).unwrap();
    let back = reordered_usernames(&users(&down.iter().map(|s| s.as_str()).collect::<Vec<_>>()), "a", -1).unwrap();
    assert_eq!(back, vec!["a".to_string(), "b".into(), "c".into()]);
}

#[test]
fn moves_to_edges() {
    let list = users(&["a", "b", "c"]);
    assert_eq!(move_username_to_edge(&list, "c", true), Some(vec!["c".to_string(), "a".into(), "b".into()]));
    assert_eq!(move_username_to_edge(&list, "a", false), Some(vec!["b".to_string(), "c".into(), "a".into()]));
    assert_eq!(move_username_to_edge(&list, "a", true), None);
    assert_eq!(move_username_to_edge(&list, "c", false), None);
    assert_eq!(move_username_to_edge(&[], "c", false), None);
}

#[test]
fn saved_messages() {
    assert_eq!(saved_links_message("u", 0, &stats(0, 2, 2)), "已清空 u 的源链接");
    assert_eq!(saved_links_message("u", 3, &stats(3, 0, 0)), "已保存 u 的源链接，共 3 条");
    assert_eq!(saved_links_message("u", 3, &stats(3, 2, 1)), "已保存 u 的源链接，保留 3 条，合并 2 条重复，忽略 1 行空白");
    assert_eq!(saved_links_message("u", 3, &stats(3, 0, 4)), "已保存 u 的源链接，保留 3 条，忽略 4 行空白");
}

#[test]
fn draft_notes() {
    assert_eq!(draft_status_note(&stats(0, 1, 1)), "保存后会清空这个订阅组的源链接。");
    assert_eq!(draft_status_note(&stats(2, 0, 0)), "当前草稿将按填写顺序保存，共 2 条。");
    assert_eq!(draft_status_note(&stats(2, 1, 3)), "保存后保留 2 条链接，并会自动合并 1 条重复链接，忽略 3 行空白。");
    assert_eq!(draft_status_note(&stats(2, 5, 0)), "保存后保留 2 条链接，并会自动合并 5 条重复链接。");
}

#[test]
fn actions_start_only_when_idle() {
    let mut f = FeedbackSignals::new();
    f.set_error("old".into());
    let mut busy = true;
    assert!(!start_action(&mut busy, &mut f));
    assert!(busy);
    assert_eq!(f.error_message.as_deref(), Some("old"));
    let mut idle = false;
    assert!(start_action(&mut idle, &mut f));
    assert!(idle);
    assert!(f.error_message.is_none());
    assert!(!start_action(&mut idle, &mut f));
}

#[test]
fn outcomes_update_the_page() {
    let mut p = true;
    let mut f = FeedbackSignals::new();
    let mut r = RefreshState::new();
    let mut text = String::from("links");
    logout_done(Ok("已退出登录".into()), &mut text, &mut f, &mut r, &mut p);
    assert_eq!(text, "");
    assert_eq!(r.auth, 1);
    assert!(!p);
    p = true;
    let mut pw = String::from("pw");
    login_done(Err("no".into()), &mut pw, &mut f, &mut r, &mut p);
    assert_eq!(pw, "pw");
    assert_eq!(f.error_message.as_deref(), Some("no"));
    login_done(Ok("登录成功".into()), &mut pw, &mut f, &mut r, &mut p);
    assert_eq!(pw, "");
    let mut fields = AccountFields { username: "a".into(), current_password: "b".into(), new_password: "c".into() };
    account_update_done(Ok("done".into()), &mut fields, &mut f, &mut r, &mut p);
    assert_eq!((fields.username.as_str(), fields.new_password.as_str()), ("", ""));
    let mut name = String::from("beta");
    let open = user_created(Ok(UserSummary { username: "beta".into() }), &mut name, &mut f, &mut r, &mut p);
    assert_eq!(open.as_deref(), Some("beta"));
    assert_eq!(f.status_message.as_deref(), Some("已创建订阅组 beta"));
    assert_eq!(name, "");
    order_saved(Ok(vec![]), &mut f, &mut r, &mut p);
    assert_eq!(f.status_message.as_deref(), Some("已更新订阅组顺序"));
    let status = UserCacheStatusResponse {
        username: "beta".into(),
        state: "fresh".into(),
        line_count: 7,
        body_bytes: 1,
        generated_at: None,
        expires_at: None,
    };
    let before = r.cache;
    cache_refreshed(Ok(status), &mut f, &mut r, &mut p);
    assert_eq!(f.status_message.as_deref(), Some("已刷新 beta 的缓存，共 7 行"));
    assert_eq!(r.cache, before + 1);
    cache_cleared(Ok("缓存已清空".into()), &mut f, &mut r, &mut p);
    assert_eq!(r.cache, before + 2);
}

#[test]
fn saving_links_updates_drafts_or_field_error() {
    let mut p = true;
    let mut f = FeedbackSignals::new();
    let mut r = RefreshState::new();
    let mut d = LinkDraftState::new();
    let mut text = String::from("http://a\n\nhttp://a");
    let mut field_error = Some("old".to_string());
    let draft = analyze_links(&text, 0);
    remember_links_input("u", &text.clone(), &mut d);
    let resp = UserLinksResponse { username: "u".into(), links: vec!["http://a".into()] };
    links_saved(Ok(resp), &draft, &mut text, &mut field_error, &mut d, &mut f, &mut r, &mut p);
    assert_eq!(text, "http://a");
    assert!(field_error.is_none());
    assert_eq!(f.status_message.as_deref(), Some("已保存 u 的源链接，保留 1 条，合并 1 条重复，忽略 1 行空白"));
    assert!(!has_unsaved_links(Some("u"), &text, &d));
    links_saved(Err("links: must not be empty".into()), &draft, &mut text, &mut field_error, &mut d, &mut f, &mut r, &mut p);
    assert_eq!(field_error.as_deref(), Some("must not be empty"));
    p = true;
    links_saved(Err("boom".into()), &draft, &mut text, &mut field_error, &mut d, &mut f, &mut r, &mut p);
    assert_eq!(f.error_message.as_deref(), Some("boom"));
    assert!(!p);
}

#[test]
fn deleting_a_group_clears_its_drafts() {
    let mut p = true;
    let mut f = FeedbackSignals::new();
    let mut r = RefreshState::new();
    let mut d = LinkDraftState::new();
    mark_links_saved("u", "x", &mut d);
    let mut text = String::from("x");
    assert!(user_deleted(Ok("已删除".into()), "u", &mut text, &mut d, &mut f, &mut r, &mut p));
    assert_eq!(text, "");
    assert_eq!(d.saved_by_user.get("u"), None);
    assert!(!user_deleted(Err("no".into()), "u", &mut text, &mut d, &mut f, &mut r, &mut p));
}

#[test]
fn account_target_name() {
    assert_eq!(account_target_username("root".into(), "   ".into()), "root");
    assert_eq!(account_target_username("root".into(), " new ".into()), " new ");
}

#[test]
fn failed_save_after_start_leaves_no_field_error() {
    let mut p = false;
    let mut f = FeedbackSignals::new();
    let mut r = RefreshState::new();
    let mut d = LinkDraftState::new();
    let mut text = String::from("http://a");
    let mut field_error = Some("old".to_string());
    assert!(start_links_save(&mut p, &mut field_error, &mut f));
    assert!(p);
    assert!(field_error.is_none());
    assert!(!start_links_save(&mut p, &mut field_error, &mut f));
    let draft = analyze_links(&text, 0);
    links_saved(Err("boom".into()), &draft, &mut text, &mut field_error, &mut d, &mut f, &mut r, &mut p);
    assert!(!p);
    assert!(field_error.is_none());
    assert_eq!(f.error_message.as_deref(), Some("boom"));
    assert_eq!(text, "http://a");
}
