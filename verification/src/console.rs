//! The administrator console's page state: what page is shown, the selected
//! subscription group's summary, messages, reload counters, busy flags and
//! link drafts.
use vstd::prelude::*;
use crate::links::{count_links, links_of};
use crate::shared::{
    CurrentUserResponse, LinkDiagnostic, UserCacheStatusResponse, UserDiagnosticsResponse,
};
use crate::text::{chars_eq, chars_of, is_lit, push_lit};
use crate::timestamps::{format_timestamp, timestamp_text};

verus! {

/// The cache state of a subscription group as the console shows it.
pub struct CacheDisplay {
    pub state: String,
    pub line_count: u32,
    pub body_bytes: u64,
    pub generated_at: String,
    pub expires_at: String,
}

/// The style class of a cache state.
pub open spec fn state_class_text(state: Seq<char>) -> Seq<char> {
    if state == "fresh"@ {
        "tag--success"@
    } else if state == "expired"@ || state == "stale"@ {
        "tag--danger"@
    } else {
        "tag--cool"@
    }
}

/// The label of a cache state.
pub open spec fn state_label_text(state: Seq<char>) -> Seq<char> {
    if state == "fresh"@ {
        "新鲜"@
    } else if state == "expired"@ {
        "已过期"@
    } else if state == "stale"@ {
        "陈旧"@
    } else if state == "empty"@ {
        "为空"@
    } else {
        "未知"@
    }
}

/// How a cache status is shown; no status shows as empty.
pub open spec fn displays(d: CacheDisplay, status: Option<UserCacheStatusResponse>) -> bool {
    match status {
        Some(s) => {
            &&& d.state@ == s.state@
            &&& d.line_count == s.line_count
            &&& d.body_bytes == s.body_bytes
            &&& d.generated_at@ == timestamp_text(s.generated_at, "尚未生成"@)
            &&& d.expires_at@ == timestamp_text(s.expires_at, "不适用"@)
        },
        None => {
            &&& d.state@ == "empty"@
            &&& d.line_count == 0
            &&& d.body_bytes == 0
            &&& d.generated_at@ == "尚未生成"@
            &&& d.expires_at@ == "不适用"@
        },
    }
}

impl CacheDisplay {
    /// How a cache status is shown.
    pub fn from_status(status: Option<&UserCacheStatusResponse>) -> (r: Self)
        ensures
            displays(
                r,
                match status {
                    Some(s) => Some(*s),
                    None => None,
                },
            ),
    {
        match status {
            Some(s) => CacheDisplay {
                state: s.state.clone(),
                line_count: s.line_count,
                body_bytes: s.body_bytes,
                generated_at: format_timestamp(s.generated_at, "尚未生成"),
                expires_at: format_timestamp(s.expires_at, "不适用"),
            },
            None => CacheDisplay {
                state: "empty".to_string(),
                line_count: 0,
                body_bytes: 0,
                generated_at: format_timestamp(None, "尚未生成"),
                expires_at: format_timestamp(None, "不适用"),
            },
        }
    }

    /// The style class of the state.
    pub fn state_class(&self) -> (r: &'static str)
        ensures
            r@ == state_class_text(self.state@),
    {
        let s = chars_of(self.state.as_str());
        if is_lit(s.as_slice(), "fresh") {
            "tag--success"
        } else if is_lit(s.as_slice(), "expired") || is_lit(s.as_slice(), "stale") {
            "tag--danger"
        } else {
            "tag--cool"
        }
    }

    /// The label of the state.
    pub fn state_label(&self) -> (r: &'static str)
        ensures
            r@ == state_label_text(self.state@),
    {
        let s = chars_of(self.state.as_str());
        if is_lit(s.as_slice(), "fresh") {
            "新鲜"
        } else if is_lit(s.as_slice(), "expired") {
            "已过期"
        } else if is_lit(s.as_slice(), "stale") {
            "陈旧"
        } else if is_lit(s.as_slice(), "empty") {
            "为空"
        } else {
            "未知"
        }
    }
}

/// What the console page shows: the mode, who is signed in, and the
/// selected subscription group.
pub struct ConsolePageMeta {
    pub active_mode: &'static str,
    pub current_username: String,
    pub selected_username: Option<String>,
    pub selected_route: String,
    pub shell_title: String,
    pub shell_summary: String,
    pub is_authenticated: bool,
}

/// The page's mode: a signed-in administrator on the sign-in page sees the
/// dashboard.
pub open spec fn active_mode_of(mode: Seq<char>, signed_in: bool) -> Seq<char> {
    if signed_in && mode == "login"@ {
        "dashboard"@
    } else {
        mode
    }
}

/// The title of a mode's page.
pub open spec fn mode_title(mode: Seq<char>) -> Seq<char> {
    if mode == "account"@ {
        "账户"@
    } else if mode == "user"@ {
        "订阅组详情"@
    } else {
        "订阅组管理"@
    }
}

/// The summary of a mode's page.
pub open spec fn mode_summary(mode: Seq<char>) -> Seq<char> {
    if mode == "account"@ {
        "更新管理员账号和登录密码。"@
    } else if mode == "user"@ {
        "编辑订阅组源链接，查看公开订阅缓存与抓取诊断。"@
    } else {
        "管理全部订阅组、源链接和公开订阅状态。"@
    }
}

/// The public route of a subscription group.
pub open spec fn route_of(username: Seq<char>) -> Seq<char> {
    "/"@ + username
}

/// The page state for a mode, the group named in the route, and the
/// signed-in administrator.
pub open spec fn page_is(
    p: ConsolePageMeta,
    mode: Seq<char>,
    route_user: Option<Seq<char>>,
    current_user: Option<Seq<char>>,
) -> bool {
    let signed_in = current_user is Some;
    let active = active_mode_of(mode, signed_in);
    &&& p.is_authenticated == signed_in
    &&& p.active_mode@ == active
    &&& p.current_username@ == match current_user {
        Some(u) => u,
        None => seq![],
    }
    &&& match p.selected_username {
        Some(u) => route_user == Some(u@),
        None => route_user is None,
    }
    &&& p.selected_route@ == match route_user {
        Some(u) => route_of(u),
        None => "/{username}"@,
    }
    &&& p.shell_title@ == (if signed_in {
        mode_title(active)
    } else {
        "登录"@
    })
    &&& p.shell_summary@ == (if signed_in {
        mode_summary(active)
    } else {
        "登录后即可管理全部订阅组、源链接和公开订阅状态。"@
    })
}

fn mode_title_of(mode: &[char]) -> (r: String)
    ensures
        r@ == mode_title(mode@),
{
    if is_lit(mode, "account") {
        "账户".to_string()
    } else if is_lit(mode, "user") {
        "订阅组详情".to_string()
    } else {
        "订阅组管理".to_string()
    }
}

fn mode_summary_of(mode: &[char]) -> (r: String)
    ensures
        r@ == mode_summary(mode@),
{
    if is_lit(mode, "account") {
        "更新管理员账号和登录密码。".to_string()
    } else if is_lit(mode, "user") {
        "编辑订阅组源链接，查看公开订阅缓存与抓取诊断。".to_string()
    } else {
        "管理全部订阅组、源链接和公开订阅状态。".to_string()
    }
}

/// The public route of a subscription group.
pub fn route_for(username: &str) -> (r: String)
    ensures
        r@ == route_of(username@),
{
    let mut s = String::new();
    push_lit(&mut s, "/");
    push_lit(&mut s, username);
    s
}

impl ConsolePageMeta {
    /// Works out the page state.
    pub fn build(mode: &'static str, route_user: Option<String>, current_user: Option<
        CurrentUserResponse,
    >) -> (r: Self)
        ensures
            page_is(
                r,
                mode@,
                match route_user {
                    Some(u) => Some(u@),
                    None => None,
                },
                match current_user {
                    Some(u) => Some(u.username@),
                    None => None,
                },
            ),
    {
        let is_authenticated = current_user.is_some();
        let m = chars_of(mode);
        let active_mode: &'static str = if is_authenticated && is_lit(m.as_slice(), "login") {
            "dashboard"
        } else {
            mode
        };
        let current_username = match current_user {
            Some(u) => u.username,
            None => String::new(),
        };
        let selected_route = match &route_user {
            Some(u) => route_for(u.as_str()),
            None => "/{username}".to_string(),
        };
        let a = chars_of(active_mode);
        let shell_title = if is_authenticated {
            mode_title_of(a.as_slice())
        } else {
            "登录".to_string()
        };
        let shell_summary = if is_authenticated {
            mode_summary_of(a.as_slice())
        } else {
            "登录后即可管理全部订阅组、源链接和公开订阅状态。".to_string()
        };
        ConsolePageMeta {
            active_mode,
            current_username,
            selected_username: route_user,
            selected_route,
            shell_title,
            shell_summary,
            is_authenticated,
        }
    }
}

/// How many diagnostics of `s` have the status `status`.
pub open spec fn status_count(s: Seq<LinkDiagnostic>, status: Seq<char>) -> nat
    decreases s.len(),
{
    if s.len() == 0 {
        0
    } else {
        status_count(s.drop_last(), status) + if s.last().status@ == status {
            1nat
        } else {
            0nat
        }
    }
}

/// Counts the diagnostics with a status.
pub fn count_diagnostics(diagnostics: &[LinkDiagnostic], status: &str) -> (r: usize)
    ensures
        r == status_count(diagnostics@, status@),
{
    let want = chars_of(status);
    let n = diagnostics.len();
    let mut c: usize = 0;
    let mut i: usize = 0;
    while i < n
        invariant
            n == diagnostics@.len(),
            want@ == status@,
            i <= n,
            c == status_count(diagnostics@.subrange(0, i as int), status@),
            c <= i,
        decreases n - i,
    {
        proof {
            let t = diagnostics@.subrange(0, i + 1);
            assert(t.drop_last() =~= diagnostics@.subrange(0, i as int));
            assert(t.last() == diagnostics@[i as int]);
        }
        let s = chars_of(diagnostics[i].status.as_str());
        if chars_eq(s.as_slice(), want.as_slice()) {
            c = c + 1;
        }
        i = i + 1;
    }
    assert(diagnostics@.subrange(0, n as int) =~= diagnostics@);
    c
}

/// The diagnostics of a payload; none without one.
pub open spec fn diagnostics_of(d: Option<UserDiagnosticsResponse>) -> Seq<LinkDiagnostic> {
    match d {
        Some(p) => p.diagnostics@,
        None => seq![],
    }
}

/// How many diagnostics succeeded, failed, were blocked and are pending.
pub fn diagnostic_counts(diagnostics: Option<&UserDiagnosticsResponse>) -> (r: (
    usize,
    usize,
    usize,
    usize,
))
    ensures
        ({
            let s = diagnostics_of(
                match diagnostics {
                    Some(p) => Some(*p),
                    None => None,
                },
            );
            &&& r.0 == status_count(s, "success"@)
            &&& r.1 == status_count(s, "error"@)
            &&& r.2 == status_count(s, "blocked"@)
            &&& r.3 == status_count(s, "pending"@)
        }),
{
    match diagnostics {
        Some(p) => {
            let d = p.diagnostics.as_slice();
            (
                count_diagnostics(d, "success"),
                count_diagnostics(d, "error"),
                count_diagnostics(d, "blocked"),
                count_diagnostics(d, "pending"),
            )
        },
        None => {
            let empty: Vec<LinkDiagnostic> = Vec::new();
            let d = empty.as_slice();
            (
                count_diagnostics(d, "success"),
                count_diagnostics(d, "error"),
                count_diagnostics(d, "blocked"),
                count_diagnostics(d, "pending"),
            )
        },
    }
}

/// The selected subscription group as the console's workspace shows it.
pub struct UserSummary {
    pub selected_username: String,
    pub selected_route: String,
    pub user_count: usize,
    pub selected_link_count: usize,
    pub cache_display: CacheDisplay,
    pub success_count: usize,
    pub error_count: usize,
    pub blocked_count: usize,
    pub pending_count: usize,
}

impl UserSummary {
    /// Sums up the selected group; `None` when no group is selected.
    pub fn build(
        selected_username: Option<String>,
        user_count: usize,
        links_text: &str,
        cache_status: Option<&UserCacheStatusResponse>,
        diagnostics: Option<&UserDiagnosticsResponse>,
    ) -> (r: Option<Self>)
        ensures
            selected_username is None ==> r is None,
            selected_username matches Some(name) ==> (r matches Some(v) && {
                let s = diagnostics_of(
                    match diagnostics {
                        Some(p) => Some(*p),
                        None => None,
                    },
                );
                &&& v.selected_username@ == name@
                &&& v.selected_route@ == route_of(name@)
                &&& v.user_count == user_count
                &&& v.selected_link_count == links_of(links_text@).len()
                &&& displays(
                    v.cache_display,
                    match cache_status {
                        Some(c) => Some(*c),
                        None => None,
                    },
                )
                &&& v.success_count == status_count(s, "success"@)
                &&& v.error_count == status_count(s, "error"@)
                &&& v.blocked_count == status_count(s, "blocked"@)
                &&& v.pending_count == status_count(s, "pending"@)
            }),
    {
        let selected_username = match selected_username {
            Some(u) => u,
            None => return None,
        };
        let (success_count, error_count, blocked_count, pending_count) = diagnostic_counts(
            diagnostics,
        );
        Some(UserSummary {
            selected_route: route_for(selected_username.as_str()),
            selected_username,
            user_count,
            selected_link_count: count_links(links_text),
            cache_display: CacheDisplay::from_status(cache_status),
            success_count,
            error_count,
            blocked_count,
            pending_count,
        })
    }

    /// How many diagnostics ask for attention.
    pub fn attention_count(&self) -> (r: usize)
        requires
            self.error_count + self.blocked_count + self.pending_count <= usize::MAX,
        ensures
            r == self.error_count + self.blocked_count + self.pending_count,
    {
        self.error_count + self.blocked_count + self.pending_count
    }

    /// The class of the cache badge.
    pub fn cache_badge_class(&self) -> (r: String)
        ensures
            r@ == "tag "@ + state_class_text(self.cache_display.state@),
    {
        let mut s = String::new();
        push_lit(&mut s, "tag ");
        push_lit(&mut s, self.cache_display.state_class());
        s
    }
}

/// The messages the console shows after an action.
pub struct FeedbackSignals {
    pub status_message: Option<String>,
    pub error_message: Option<String>,
}

impl FeedbackSignals {
    /// No messages.
    pub fn new() -> (r: Self)
        ensures
            r.status_message is None,
            r.error_message is None,
    {
        FeedbackSignals { status_message: None, error_message: None }
    }

    /// Drops both messages.
    pub fn clear(&mut self)
        ensures
            final(self).status_message is None,
            final(self).error_message is None,
    {
        self.error_message = None;
        self.status_message = None;
    }

    /// Shows a status message; the error message stays.
    pub fn set_status(&mut self, message: String)
        ensures
            final(self).status_message == Some(message),
            final(self).error_message == old(self).error_message,
    {
        self.status_message = Some(message);
    }

    /// Shows an error message; the status message stays.
    pub fn set_error(&mut self, message: String)
        ensures
            final(self).error_message == Some(message),
            final(self).status_message == old(self).status_message,
    {
        self.error_message = Some(message);
    }
}

/// Counters whose change makes the console load a resource again.
#[derive(Clone, Copy, Debug, PartialEq, Eq)]
pub struct RefreshState {
    pub auth: u32,
    pub users: u32,
    pub links: u32,
    pub diagnostics: u32,
    pub cache: u32,
}

impl RefreshState {
    /// All counters at zero.
    pub fn new() -> (r: Self)
        ensures
            r == (RefreshState { auth: 0, users: 0, links: 0, diagnostics: 0, cache: 0 }),
    {
        RefreshState { auth: 0, users: 0, links: 0, diagnostics: 0, cache: 0 }
    }

    /// Reloads the signed-in administrator.
    pub fn bump_auth(&mut self)
        requires
            old(self).auth < u32::MAX,
        ensures
            *final(self) == (RefreshState { auth: (old(self).auth + 1) as u32, ..*old(self) }),
    {
        self.auth = self.auth + 1;
    }

    /// Reloads the user list.
    pub fn bump_users(&mut self)
        requires
            old(self).users < u32::MAX,
        ensures
            *final(self) == (RefreshState { users: (old(self).users + 1) as u32, ..*old(self) }),
    {
        self.users = self.users + 1;
    }

    /// Reloads the selected group's links.
    pub fn bump_links(&mut self)
        requires
            old(self).links < u32::MAX,
        ensures
            *final(self) == (RefreshState { links: (old(self).links + 1) as u32, ..*old(self) }),
    {
        self.links = self.links + 1;
    }

    /// Reloads the selected group's diagnostics.
    pub fn bump_diagnostics(&mut self)
        requires
            old(self).diagnostics < u32::MAX,
        ensures
            *final(self) == (RefreshState {
                diagnostics: (old(self).diagnostics + 1) as u32,
                ..*old(self)
            }),
    {
        self.diagnostics = self.diagnostics + 1;
    }

    /// Reloads the selected group's cache status.
    pub fn bump_cache(&mut self)
        requires
            old(self).cache < u32::MAX,
        ensures
            *final(self) == (RefreshState { cache: (old(self).cache + 1) as u32, ..*old(self) }),
    {
        self.cache = self.cache + 1;
    }

    /// Reloads everything about the selected group.
    pub fn bump_selected_data(&mut self)
        requires
            old(self).links < u32::MAX,
            old(self).diagnostics < u32::MAX,
            old(self).cache < u32::MAX,
        ensures
            *final(self) == (RefreshState {
                links: (old(self).links + 1) as u32,
                diagnostics: (old(self).diagnostics + 1) as u32,
                cache: (old(self).cache + 1) as u32,
                ..*old(self)
            }),
    {
        self.bump_links();
        self.bump_diagnostics();
        self.bump_cache();
    }

    /// Reloads everything after signing in or out.
    pub fn bump_after_auth_change(&mut self)
        requires
            old(self).auth < u32::MAX,
            old(self).users < u32::MAX,
            old(self).links < u32::MAX,
            old(self).diagnostics < u32::MAX,
            old(self).cache < u32::MAX,
        ensures
            *final(self) == (RefreshState {
                auth: (old(self).auth + 1) as u32,
                users: (old(self).users + 1) as u32,
                links: (old(self).links + 1) as u32,
                diagnostics: (old(self).diagnostics + 1) as u32,
                cache: (old(self).cache + 1) as u32,
            }),
    {
        self.bump_auth();
        self.bump_users();
        self.bump_selected_data();
    }

    /// Reloads the list and the selected group after a group changed.
    pub fn bump_after_user_change(&mut self)
        requires
            old(self).users < u32::MAX,
            old(self).links < u32::MAX,
            old(self).diagnostics < u32::MAX,
            old(self).cache < u32::MAX,
        ensures
            *final(self) == (RefreshState {
                users: (old(self).users + 1) as u32,
                links: (old(self).links + 1) as u32,
                diagnostics: (old(self).diagnostics + 1) as u32,
                cache: (old(self).cache + 1) as u32,
                ..*old(self)
            }),
    {
        self.bump_users();
        self.bump_selected_data();
    }

    /// Reloads the cache status and diagnostics after a cache refresh.
    pub fn bump_after_cache_refresh(&mut self)
        requires
            old(self).diagnostics < u32::MAX,
            old(self).cache < u32::MAX,
        ensures
            *final(self) == (RefreshState {
                diagnostics: (old(self).diagnostics + 1) as u32,
                cache: (old(self).cache + 1) as u32,
                ..*old(self)
            }),
    {
        self.bump_cache();
        self.bump_diagnostics();
    }
}

/// Which actions are under way.
#[derive(Clone, Copy, Debug, PartialEq, Eq)]
pub struct PendingState {
    pub login: bool,
    pub logout: bool,
    pub account_update: bool,
    pub create_user: bool,
    pub reorder_users: bool,
    pub save_links: bool,
    pub delete_user: bool,
    pub refresh_cache: bool,
    pub clear_cache: bool,
}

impl PendingState {
    /// Nothing under way.
    pub fn new() -> (r: Self)
        ensures
            !r.login && !r.logout && !r.account_update && !r.create_user && !r.reorder_users
                && !r.save_links && !r.delete_user && !r.refresh_cache && !r.clear_cache,
    {
        PendingState {
            login: false,
            logout: false,
            account_update: false,
            create_user: false,
            reorder_users: false,
            save_links: false,
            delete_user: false,
            refresh_cache: false,
            clear_cache: false,
        }
    }
}

/// A loaded resource: its value, or why it failed.
pub struct ResourceSnapshot<T> {
    pub value: Option<T>,
    pub error: Option<String>,
}

impl<T> Default for ResourceSnapshot<T> {
    fn default() -> (r: Self)
        ensures
            r.value is None,
            r.error is None,
    {
        ResourceSnapshot { value: None, error: None }
    }
}

/// What a resource shows: `None` while loading.
pub fn resource_snapshot<T>(state: Option<Result<T, String>>) -> (r: ResourceSnapshot<T>)
    ensures
        match state {
            Some(Ok(v)) => r.value == Some(v) && r.error is None,
            Some(Err(e)) => r.value is None && r.error == Some(e),
            None => r.value is None && r.error is None,
        },
{
    match state {
        Some(Ok(value)) => ResourceSnapshot { value: Some(value), error: None },
        Some(Err(error)) => ResourceSnapshot { value: None, error: Some(error) },
        None => ResourceSnapshot { value: None, error: None },
    }
}

/// What an optional resource shows: nothing while loading or when absent.
pub fn optional_resource_snapshot<T>(state: Option<Result<Option<T>, String>>) -> (r: ResourceSnapshot<T>)
    ensures
        match state {
            Some(Ok(Some(v))) => r.value == Some(v) && r.error is None,
            Some(Err(e)) => r.value is None && r.error == Some(e),
            _ => r.value is None && r.error is None,
        },
{
    match state {
        Some(Ok(Some(value))) => ResourceSnapshot { value: Some(value), error: None },
        Some(Ok(None)) => ResourceSnapshot { value: None, error: None },
        Some(Err(error)) => ResourceSnapshot { value: None, error: Some(error) },
        None => ResourceSnapshot { value: None, error: None },
    }
}

} // verus!
