//! The console's page frame and small panels: the shell around every page,
//! the workspace overview, the session panel, the forms' buttons, the
//! page layout, and the page for unknown routes.
use vstd::prelude::*;
use crate::console::{route_for, route_of, state_class_text, state_label_text, UserSummary};
use crate::links::string_views;
use crate::panels::{mode_view, route_link_class, topbar_workspace_label};
use crate::text::{chars_eq, chars_of, decimal, is_lit, push_decimal, push_lit, utf8_len};

verus! {

/// The label over the shell's spotlight.
pub open spec fn spotlight_label_text(active_mode: Option<Seq<char>>, has_selected_user: bool) -> Seq<char> {
    if has_selected_user {
        "当前订阅组"@
    } else if active_mode == Some("account"@) {
        "账户中心"@
    } else {
        "当前页面"@
    }
}

fn is_mode(active_mode: Option<&str>, mode: &str) -> (r: bool)
    ensures
        r == (mode_view(active_mode) == Some(mode@)),
{
    match active_mode {
        Some(m) => chars_eq(chars_of(m).as_slice(), chars_of(mode).as_slice()),
        None => false,
    }
}

/// The label over the shell's spotlight.
pub fn shell_spotlight_label(active_mode: Option<&str>, selected_user: Option<&str>) -> (r: &'static str)
    ensures
        r@ == spotlight_label_text(mode_view(active_mode), selected_user is Some),
{
    if selected_user.is_some() {
        "当前订阅组"
    } else if is_mode(active_mode, "account") {
        "账户中心"
    } else {
        "当前页面"
    }
}

/// The text of the shell's spotlight.
pub open spec fn spotlight_summary_text(
    active_mode: Option<Seq<char>>,
    selected_user: Option<Seq<char>>,
    default_summary: Seq<char>,
) -> Seq<char> {
    match selected_user {
        Some(u) => "公开订阅地址 /"@ + u + "，这里集中处理源链接编辑、缓存快照和抓取诊断。"@,
        None => if active_mode == Some("account"@) {
            "维护管理员用户名和密码，更新后当前会话会立即退出。"@
        } else {
            default_summary
        },
    }
}

/// The text of the shell's spotlight.
pub fn shell_spotlight_summary(active_mode: Option<&str>, selected_user: Option<&str>, default_summary: &str) -> (r: String)
    ensures
        r@ == spotlight_summary_text(
            mode_view(active_mode),
            mode_view(selected_user),
            default_summary@,
        ),
{
    match selected_user {
        Some(username) => {
            let mut s = String::new();
            push_lit(&mut s, "公开订阅地址 /");
            push_lit(&mut s, username);
            push_lit(&mut s, "，这里集中处理源链接编辑、缓存快照和抓取诊断。");
            s
        },
        None => if is_mode(active_mode, "account") {
            "维护管理员用户名和密码，更新后当前会话会立即退出。".to_string()
        } else {
            default_summary.to_string()
        },
    }
}

/// The label of the page's mode.
pub open spec fn mode_label_text(active_mode: Option<Seq<char>>) -> Seq<char> {
    if active_mode == Some("account"@) {
        "账户维护"@
    } else if active_mode == Some("user"@) {
        "订阅组详情"@
    } else {
        "订阅组控制台"@
    }
}

/// The label of the page's mode.
pub fn shell_mode_label(active_mode: Option<&str>) -> (r: &'static str)
    ensures
        r@ == mode_label_text(mode_view(active_mode)),
{
    if is_mode(active_mode, "account") {
        "账户维护"
    } else if is_mode(active_mode, "user") {
        "订阅组详情"
    } else {
        "订阅组控制台"
    }
}

/// What the page's mode is about.
pub open spec fn mode_summary_text(active_mode: Option<Seq<char>>, has_selected_user: bool) -> Seq<char> {
    if active_mode == Some("account"@) {
        "当前页面聚焦管理员凭据和会话安全设置。"@
    } else if active_mode == Some("user"@) && has_selected_user {
        "当前视图聚焦单个订阅组，方便连续编辑和排查。"@
    } else {
        "先从左侧订阅组列表选中对象，再进入具体编辑和诊断流程。"@
    }
}

/// What the page's mode is about.
pub fn shell_mode_summary(active_mode: Option<&str>, has_selected_user: bool) -> (r: &'static str)
    ensures
        r@ == mode_summary_text(mode_view(active_mode), has_selected_user),
{
    if is_mode(active_mode, "account") {
        "当前页面聚焦管理员凭据和会话安全设置。"
    } else if is_mode(active_mode, "user") && has_selected_user {
        "当前视图聚焦单个订阅组，方便连续编辑和排查。"
    } else {
        "先从左侧订阅组列表选中对象，再进入具体编辑和诊断流程。"
    }
}

/// What the page frame shows.
pub struct ShellView {
    pub page_class: &'static str,
    pub shell_class: &'static str,
    pub content_class: &'static str,
    pub dashboard_link_class: &'static str,
    pub user_link_class: &'static str,
    pub account_link_class: &'static str,
    pub spotlight_label: &'static str,
    pub spotlight_title: String,
    pub spotlight_summary: String,
    pub spotlight_route: Option<String>,
    pub mode_label: &'static str,
    pub mode_summary: &'static str,
    /// The selected group's name and its shortened label for the top bar.
    pub selected_nav: Option<(String, String)>,
}

/// A name that the top bar can shorten: short, or with a character
/// boundary at byte 19.
pub open spec fn label_cuttable(name: Seq<char>) -> bool {
    utf8_len(name) > 22 ==> exists|k: int| 0 <= k <= name.len() && utf8_len(#[trigger] name.take(k)) == 19
}

/// Works out what the page frame shows.
pub fn shell_view(
    title: &str,
    summary: &str,
    compact: bool,
    active_mode: Option<&str>,
    selected_user: Option<&str>,
) -> (v: ShellView)
    requires
        selected_user matches Some(u) ==> label_cuttable(u@),
    ensures
        v.page_class@ == (if compact {
            "shell-page shell-page--compact"@
        } else {
            "shell-page shell-page--app"@
        }),
        v.shell_class@ == (if compact {
            "shell shell--compact"@
        } else {
            "shell shell--app"@
        }),
        v.content_class@ == (if compact {
            "content content--compact"@
        } else {
            "content"@
        }),
        v.dashboard_link_class@ == (if mode_view(active_mode) == Some("dashboard"@) {
            "route-link route-link--active"@
        } else {
            "route-link"@
        }),
        v.user_link_class@ == (if mode_view(active_mode) == Some("user"@) {
            "route-link route-link--active"@
        } else {
            "route-link"@
        }),
        v.account_link_class@ == (if mode_view(active_mode) == Some("account"@) {
            "route-link route-link--active"@
        } else {
            "route-link"@
        }),
        v.spotlight_label@ == spotlight_label_text(mode_view(active_mode), selected_user is Some),
        v.spotlight_title@ == match selected_user {
            Some(u) => u@,
            None => title@,
        },
        v.spotlight_summary@ == spotlight_summary_text(
            mode_view(active_mode),
            mode_view(selected_user),
            summary@,
        ),
        match selected_user {
            Some(u) => v.spotlight_route matches Some(r) && r@ == route_of(u@),
            None => v.spotlight_route is None,
        },
        v.mode_label@ == mode_label_text(mode_view(active_mode)),
        v.mode_summary@ == mode_summary_text(mode_view(active_mode), selected_user is Some),
        match selected_user {
            Some(u) => v.selected_nav matches Some(p) && p.0@ == u@ && (utf8_len(u@) <= 22 ==> p.1@
                == u@) && (utf8_len(u@) > 22 ==> exists|k: int|
                0 <= k <= u@.len() && utf8_len(#[trigger] u@.take(k)) == 19 && p.1@ == u@.take(k)
                    + "..."@),
            None => v.selected_nav is None,
        },
{
    let spotlight_title = match selected_user {
        Some(u) => u.to_string(),
        None => title.to_string(),
    };
    let spotlight_route = match selected_user {
        Some(u) => Some(route_for(u)),
        None => None,
    };
    let selected_nav = match selected_user {
        Some(u) => Some((u.to_string(), topbar_workspace_label(u))),
        None => None,
    };
    ShellView {
        page_class: if compact {
            "shell-page shell-page--compact"
        } else {
            "shell-page shell-page--app"
        },
        shell_class: if compact {
            "shell shell--compact"
        } else {
            "shell shell--app"
        },
        content_class: if compact {
            "content content--compact"
        } else {
            "content"
        },
        dashboard_link_class: route_link_class(active_mode, "dashboard"),
        user_link_class: route_link_class(active_mode, "user"),
        account_link_class: route_link_class(active_mode, "account"),
        spotlight_label: shell_spotlight_label(active_mode, selected_user),
        spotlight_title,
        spotlight_summary: shell_spotlight_summary(active_mode, selected_user, summary),
        spotlight_route,
        mode_label: shell_mode_label(active_mode),
        mode_summary: shell_mode_summary(active_mode, selected_user.is_some()),
        selected_nav,
    }
}

/// What the workspace overview shows.
pub struct OverviewView {
    pub attention_count: usize,
    pub cache_badge_class: String,
    pub cache_label: &'static str,
    pub attention_badge_class: &'static str,
    pub attention_badge_label: String,
}

/// Works out what the workspace overview shows.
pub fn overview_view(summary: &UserSummary) -> (v: OverviewView)
    requires
        summary.error_count + summary.blocked_count + summary.pending_count <= usize::MAX,
    ensures
        v.attention_count == summary.error_count + summary.blocked_count + summary.pending_count,
        v.cache_badge_class@ == "tag "@ + state_class_text(summary.cache_display.state@),
        v.cache_label@ == state_label_text(summary.cache_display.state@),
        v.attention_badge_class@ == (if v.attention_count > 0 {
            "tag tag--danger"@
        } else {
            "tag tag--success"@
        }),
        v.attention_badge_label@ == (if v.attention_count > 0 {
            decimal(v.attention_count as nat) + " 项待处理"@
        } else {
            "当前无待处理项"@
        }),
{
    let attention_count = summary.attention_count();
    let attention_badge_label = if attention_count > 0 {
        let mut s = String::new();
        push_decimal(&mut s, attention_count as u64);
        push_lit(&mut s, " 项待处理");
        s
    } else {
        "当前无待处理项".to_string()
    };
    OverviewView {
        attention_count,
        cache_badge_class: summary.cache_badge_class(),
        cache_label: summary.cache_display.state_label(),
        attention_badge_class: if attention_count > 0 {
            "tag tag--danger"
        } else {
            "tag tag--success"
        },
        attention_badge_label,
    }
}

/// What the session panel shows.
pub struct ControlPlaneView {
    pub public_route: Option<String>,
    pub selection_state: &'static str,
    pub selection_summary: String,
    pub logout_label: &'static str,
}

/// Works out what the session panel shows.
pub fn control_plane_view(selected_username: Option<&str>, logout_pending: bool) -> (v: ControlPlaneView)
    ensures
        match selected_username {
            Some(u) => {
                &&& v.public_route matches Some(r) && r@ == route_of(u@)
                &&& v.selection_state@ == "已锁定订阅组"@
                &&& v.selection_summary@ == "当前选中 "@ + u@ + "，公开订阅地址 /"@ + u@
            },
            None => {
                &&& v.public_route is None
                &&& v.selection_state@ == "等待选择"@
                &&& v.selection_summary@ == "从左侧列表选择订阅组后，再继续编辑和诊断。"@
            },
        },
        v.logout_label@ == (if logout_pending {
            "退出中…"@
        } else {
            "退出登录"@
        }),
{
    let (public_route, selection_state, selection_summary) = match selected_username {
        Some(u) => {
            let mut s = String::new();
            push_lit(&mut s, "当前选中 ");
            push_lit(&mut s, u);
            push_lit(&mut s, "，公开订阅地址 /");
            push_lit(&mut s, u);
            (Some(route_for(u)), "已锁定订阅组", s)
        },
        None => (None, "等待选择", "从左侧列表选择订阅组后，再继续编辑和诊断。".to_string()),
    };
    ControlPlaneView {
        public_route,
        selection_state,
        selection_summary,
        logout_label: if logout_pending {
            "退出中…"
        } else {
            "退出登录"
        },
    }
}

/// The sign-in button's label.
pub fn login_button_label(pending: bool) -> (r: &'static str)
    ensures
        r@ == (if pending {
            "登录中…"@
        } else {
            "登录"@
        }),
{
    if pending {
        "登录中…"
    } else {
        "登录"
    }
}

/// The account form's button label.
pub fn account_button_label(pending: bool) -> (r: &'static str)
    ensures
        r@ == (if pending {
            "更新中…"@
        } else {
            "更新账户"@
        }),
{
    if pending {
        "更新中…"
    } else {
        "更新账户"
    }
}

/// How the console page is laid out.
#[derive(Clone, Copy, Debug, PartialEq, Eq)]
pub enum ConsoleLayout {
    /// Nobody is signed in: the sign-in form.
    SignIn,
    /// The account page.
    Account,
    /// A group is selected: its workspace beside the list.
    Workspace,
    /// No group is selected: the list and a prompt to choose one.
    ChooseGroup,
}

/// How the console page is laid out.
pub fn console_layout(signed_in: bool, active_mode: &str, has_selected_user: bool) -> (r: ConsoleLayout)
    ensures
        r == (if !signed_in {
            ConsoleLayout::SignIn
        } else if active_mode@ == "account"@ {
            ConsoleLayout::Account
        } else if has_selected_user {
            ConsoleLayout::Workspace
        } else {
            ConsoleLayout::ChooseGroup
        }),
{
    if !signed_in {
        ConsoleLayout::SignIn
    } else if is_lit(chars_of(active_mode).as_slice(), "account") {
        ConsoleLayout::Account
    } else if has_selected_user {
        ConsoleLayout::Workspace
    } else {
        ConsoleLayout::ChooseGroup
    }
}

/// Segments joined with `/`.
pub open spec fn path_joined(s: Seq<Seq<char>>) -> Seq<char>
    decreases s.len(),
{
    if s.len() == 0 {
        seq![]
    } else if s.len() == 1 {
        s[0]
    } else {
        path_joined(s.drop_last()) + "/"@ + s.last()
    }
}

/// The route and summary of the page for an unknown route.
pub fn not_found_view(segments: &[String]) -> (r: (String, String))
    ensures
        r.0@ == "/"@ + path_joined(string_views(segments@)),
        r.1@ == "没有为 "@ + r.0@ + " 注册 Dioxus 路由。"@,
{
    let n = segments.len();
    let mut route = String::new();
    push_lit(&mut route, "/");
    let mut i: usize = 0;
    while i < n
        invariant
            n == segments@.len(),
            i <= n,
            route@ == "/"@ + path_joined(string_views(segments@.subrange(0, i as int))),
        decreases n - i,
    {
        proof {
            let t = string_views(segments@.subrange(0, i + 1));
            assert(t.drop_last() =~= string_views(segments@.subrange(0, i as int)));
            assert(t.last() == segments@[i as int]@);
            assert(t.len() == i + 1);
            if i == 0 {
                assert(t[0] == segments@[0]@);
                assert(path_joined(t.drop_last()) == Seq::<char>::empty());
            }
        }
        if i > 0 {
            push_lit(&mut route, "/");
        }
        push_lit(&mut route, segments[i].as_str());
        proof {
            if i == 0 {
                assert(route@ =~= "/"@ + path_joined(string_views(segments@.subrange(0, 1))));
            } else {
                assert(route@ =~= "/"@ + path_joined(string_views(segments@.subrange(0, i + 1))));
            }
        }
        i = i + 1;
    }
    assert(segments@.subrange(0, n as int) =~= segments@);
    let mut summary = String::new();
    push_lit(&mut summary, "没有为 ");
    push_lit(&mut summary, route.as_str());
    push_lit(&mut summary, " 注册 Dioxus 路由。");
    (route, summary)
}

/// The console's routes: `/`, `/login`, `/users/{username}`, `/account`,
/// and any other path by its segments.
#[derive(Clone, Debug, PartialEq, Eq)]
pub enum Route {
    Dashboard,
    Login,
    UserDetail { username: String },
    Account,
    NotFound { segments: Vec<String> },
}

impl Route {
    /// The console mode a route opens, `None` for an unknown route.
    pub fn console_mode(&self) -> (r: Option<&'static str>)
        ensures
            match self {
                Route::Dashboard => r matches Some(m) && m@ == "dashboard"@,
                Route::Login => r matches Some(m) && m@ == "login"@,
                Route::UserDetail { .. } => r matches Some(m) && m@ == "user"@,
                Route::Account => r matches Some(m) && m@ == "account"@,
                Route::NotFound { .. } => r is None,
            },
    {
        match self {
            Route::Dashboard => Some("dashboard"),
            Route::Login => Some("login"),
            Route::UserDetail { .. } => Some("user"),
            Route::Account => Some("account"),
            Route::NotFound { .. } => None,
        }
    }

    /// The subscription group a route names.
    pub fn route_user(&self) -> (r: Option<String>)
        ensures
            match self {
                Route::UserDetail { username } => r matches Some(u) && u@ == username@,
                _ => r is None,
            },
    {
        match self {
            Route::UserDetail { username } => Some(username.clone()),
            _ => None,
        }
    }
}

} // verus!
