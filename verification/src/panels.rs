//! What the console's panels show: the cache panel, the link editor, the
//! group list and its rows, and the navigation links with the shortened
//! group name of the top bar.
use vstd::prelude::*;
use crate::console::{route_for, route_of, state_class_text, state_label_text, CacheDisplay};
use crate::links::{analyze_links, draft_fold, draft_lines, string_views, DraftLinkStats};
use crate::shared::UserSummary as GroupSummary;
use crate::text::{
    ascii_lowercase, ascii_lowercase_chars, chars_contain, chars_of, contains_seq, decimal,
    is_lit, push_decimal, push_lit, trim, trim_chars, utf8_len, char_len_utf8, char_utf8_len,
};

verus! {

/// The cache panel's verdict on a cache state.
#[derive(Clone, Copy, Debug)]
pub struct CachePresentation {
    pub headline: &'static str,
    pub summary: &'static str,
    pub route_note: &'static str,
    pub action_hint: &'static str,
    pub tone_class: &'static str,
}

/// What the cache panel says of a cache state: fresh, stale or expired,
/// empty, or unknown.
pub open spec fn presents(p: CachePresentation, state: Seq<char>) -> bool {
    if state == "fresh"@ {
        &&& p.headline@ == "快照状态健康"@
        &&& p.summary@ == "当前订阅组已经有可直接提供的聚合快照，除非上游内容发生变化，否则不需要立刻刷新。"@
        &&& p.route_note@ == "下次访问会优先命中当前快照"@
        &&& p.action_hint@ == "按需复查即可"@
        &&& p.tone_class@ == "cache-verdict--success"@
    } else if state == "expired"@ || state == "stale"@ {
        &&& p.headline@ == "快照已需要处理"@
        &&& p.summary@ == "当前快照已经过期或处于陈旧状态，公开订阅还能返回旧值，但建议尽快刷新，避免继续提供过期内容。"@
        &&& p.route_note@ == "公开访问可能继续返回旧快照"@
        &&& p.action_hint@ == "建议立即刷新"@
        &&& p.tone_class@ == "cache-verdict--danger"@
    } else if state == "empty"@ {
        &&& p.headline@ == "还没有可用快照"@
        &&& p.summary@ == "这个订阅组还没有生成过聚合结果。首次访问公开订阅或手动刷新缓存后，状态才会变成可用。"@
        &&& p.route_note@ == "首次访问将触发生成流程"@
        &&& p.action_hint@ == "建议立即生成"@
        &&& p.tone_class@ == "cache-verdict--cool"@
    } else {
        &&& p.headline@ == "缓存状态未知"@
        &&& p.summary@ == "当前状态没有被前端识别，建议重新读取缓存状态，必要时直接刷新快照。"@
        &&& p.route_note@ == "暂时无法判断公开订阅会返回什么"@
        &&& p.action_hint@ == "先重新读取状态"@
        &&& p.tone_class@ == "cache-verdict--cool"@
    }
}

/// The cache panel's verdict on a cache state.
pub fn cache_presentation(state: &str) -> (r: CachePresentation)
    ensures
        presents(r, state@),
{
    let s = chars_of(state);
    if is_lit(s.as_slice(), "fresh") {
        CachePresentation {
            headline: "快照状态健康",
            summary: "当前订阅组已经有可直接提供的聚合快照，除非上游内容发生变化，否则不需要立刻刷新。",
            route_note: "下次访问会优先命中当前快照",
            action_hint: "按需复查即可",
            tone_class: "cache-verdict--success",
        }
    } else if is_lit(s.as_slice(), "expired") || is_lit(s.as_slice(), "stale") {
        CachePresentation {
            headline: "快照已需要处理",
            summary: "当前快照已经过期或处于陈旧状态，公开订阅还能返回旧值，但建议尽快刷新，避免继续提供过期内容。",
            route_note: "公开访问可能继续返回旧快照",
            action_hint: "建议立即刷新",
            tone_class: "cache-verdict--danger",
        }
    } else if is_lit(s.as_slice(), "empty") {
        CachePresentation {
            headline: "还没有可用快照",
            summary: "这个订阅组还没有生成过聚合结果。首次访问公开订阅或手动刷新缓存后，状态才会变成可用。",
            route_note: "首次访问将触发生成流程",
            action_hint: "建议立即生成",
            tone_class: "cache-verdict--cool",
        }
    } else {
        CachePresentation {
            headline: "缓存状态未知",
            summary: "当前状态没有被前端识别，建议重新读取缓存状态，必要时直接刷新快照。",
            route_note: "暂时无法判断公开订阅会返回什么",
            action_hint: "先重新读取状态",
            tone_class: "cache-verdict--cool",
        }
    }
}

/// The refresh button's label for a cache state.
pub open spec fn refresh_label_text(state: Seq<char>) -> Seq<char> {
    if state == "fresh"@ {
        "重新构建快照"@
    } else if state == "expired"@ || state == "stale"@ {
        "立即刷新快照"@
    } else if state == "empty"@ {
        "立即生成快照"@
    } else {
        "刷新缓存"@
    }
}

/// The refresh button's label for a cache state.
pub fn cache_refresh_label(state: &str) -> (r: &'static str)
    ensures
        r@ == refresh_label_text(state@),
{
    let s = chars_of(state);
    if is_lit(s.as_slice(), "fresh") {
        "重新构建快照"
    } else if is_lit(s.as_slice(), "expired") || is_lit(s.as_slice(), "stale") {
        "立即刷新快照"
    } else if is_lit(s.as_slice(), "empty") {
        "立即生成快照"
    } else {
        "刷新缓存"
    }
}

/// What the cache panel shows.
pub struct CachePanelView {
    pub presentation: CachePresentation,
    pub state_class: &'static str,
    pub state_label: &'static str,
    /// The buttons are disabled while a refresh or a clear runs.
    pub busy: bool,
    pub refresh_label: &'static str,
    pub clear_label: &'static str,
    pub confirm_label: &'static str,
}

/// Works out what the cache panel shows.
pub fn cache_panel_view(cache: &CacheDisplay, refresh_pending: bool, clear_pending: bool, confirm_clear: bool) -> (v: CachePanelView)
    ensures
        presents(v.presentation, cache.state@),
        v.state_class@ == state_class_text(cache.state@),
        v.state_label@ == state_label_text(cache.state@),
        v.busy == (refresh_pending || clear_pending),
        v.refresh_label@ == (if refresh_pending {
            "刷新中…"@
        } else {
            refresh_label_text(cache.state@)
        }),
        v.clear_label@ == (if clear_pending {
            "清空中…"@
        } else if confirm_clear {
            "请在下方确认"@
        } else {
            "清空缓存"@
        }),
        v.confirm_label@ == (if clear_pending {
            "清空中…"@
        } else {
            "确认清空缓存"@
        }),
{
    CachePanelView {
        presentation: cache_presentation(cache.state.as_str()),
        state_class: cache.state_class(),
        state_label: cache.state_label(),
        busy: refresh_pending || clear_pending,
        refresh_label: if refresh_pending {
            "刷新中…"
        } else {
            cache_refresh_label(cache.state.as_str())
        },
        clear_label: if clear_pending {
            "清空中…"
        } else if confirm_clear {
            "请在下方确认"
        } else {
            "清空缓存"
        },
        confirm_label: if clear_pending {
            "清空中…"
        } else {
            "确认清空缓存"
        },
    }
}

/// What reaches the cache panel's clear confirmation: a click on one of its
/// buttons, or a switch to another group.
#[derive(Clone, Copy, Debug, PartialEq, Eq, Structural)]
pub enum CacheConfirmEvent {
    /// The "清空缓存" button.
    ClearClicked,
    /// The "取消" button of the confirm strip.
    CancelClicked,
    /// The "确认清空缓存" button of the confirm strip.
    ConfirmClicked,
    /// The panel now shows another group.
    GroupChanged,
}

/// The confirm flag of a fresh cache panel: the strip is hidden.
pub fn initial_cache_confirm() -> (r: bool)
    ensures
        !r,
{
    false
}

/// The clear confirmation's next state: the new confirm flag and whether
/// the clear request is sent.  The buttons are disabled while the panel is
/// busy, and the strip's buttons exist only while the flag is set; a clear
/// is sent only from the strip's confirm button, which hides the strip.
pub fn cache_confirm_step(confirm_clear: bool, busy: bool, event: CacheConfirmEvent) -> (r: (bool, bool))
    ensures
        event == CacheConfirmEvent::GroupChanged ==> r == (false, false),
        event != CacheConfirmEvent::GroupChanged && busy ==> r == (confirm_clear, false),
        !busy && event == CacheConfirmEvent::ClearClicked ==> r == (true, false),
        !busy && event == CacheConfirmEvent::CancelClicked ==> r == (false, false),
        !busy && event == CacheConfirmEvent::ConfirmClicked ==> r == (false, confirm_clear),
{
    match event {
        CacheConfirmEvent::GroupChanged => (false, false),
        _ => if busy {
            (confirm_clear, false)
        } else {
            match event {
                CacheConfirmEvent::ClearClicked => (true, false),
                CacheConfirmEvent::CancelClicked => (false, false),
                _ => (false, confirm_clear),
            }
        },
    }
}

/// What the link editor shows.
pub struct EditorView {
    pub stats: DraftLinkStats,
    /// Valid links beyond the preview.
    pub preview_overflow: usize,
    /// The note under the editor, and whether it reports an error.
    pub field_note: String,
    pub field_note_is_error: bool,
    pub status_title: &'static str,
    pub status_detail: String,
    pub save_label: &'static str,
    pub save_enabled: bool,
    pub delete_label: &'static str,
    pub confirm_delete_label: &'static str,
    pub editor_class: &'static str,
    pub busy: bool,
    /// What the preview says when it lists nothing.
    pub empty_preview_note: &'static str,
}

/// The note the editor shows about invalid links.
pub open spec fn format_issue_text(invalid: nat, first: Seq<char>) -> Seq<char> {
    "发现 "@ + decimal(invalid) + " 条格式不正确的链接，保存前需要修正。首条问题："@ + first
}

/// What the editor reports about its text.
pub open spec fn editor_model(text: Seq<char>) -> crate::links::DraftModel {
    draft_fold(draft_lines(text))
}

/// Works out what the link editor shows for its text.
pub fn editor_view(
    links_text: &str,
    has_unsaved_changes: bool,
    save_pending: bool,
    delete_pending: bool,
    confirm_delete: bool,
    links_error: Option<String>,
) -> (v: EditorView)
    ensures
        v.stats.invalid_count == editor_model(links_text@).invalid,
        v.stats.normalized_count == editor_model(links_text@).normalized.len(),
        v.stats.raw_line_count == draft_lines(links_text@).len(),
        v.stats.non_empty_count == editor_model(links_text@).non_empty,
        v.stats.blank_count == editor_model(links_text@).blank,
        v.stats.duplicate_count == editor_model(links_text@).duplicate,
        match v.stats.first_invalid {
            Some(f) => editor_model(links_text@).first_invalid == Some(f@),
            None => editor_model(links_text@).first_invalid is None,
        },
        string_views(v.stats.normalized_preview@) == editor_model(links_text@).normalized.take(
            if editor_model(links_text@).normalized.len() < 4 {
                editor_model(links_text@).normalized.len() as int
            } else {
                4
            },
        ),
        v.preview_overflow == (if editor_model(links_text@).normalized.len() < 4 {
            0
        } else {
            editor_model(links_text@).normalized.len() - 4
        }),
        v.busy == (save_pending || delete_pending),
        match links_error {
            Some(e) => v.field_note@ == e@ && v.field_note_is_error,
            None => match editor_model(links_text@).first_invalid {
                Some(first) => v.field_note@ == format_issue_text(editor_model(links_text@).invalid, first)
                    && v.field_note_is_error,
                None => !v.field_note_is_error && v.field_note@ == (if has_unsaved_changes {
                    "当前有未保存草稿，切换订阅组后会在当前浏览器会话中保留。"@
                } else {
                    "仅支持 HTTP/HTTPS，私网地址和不可解析目标会被拒绝。"@
                }),
            },
        },
        v.status_title@ == (if editor_model(links_text@).invalid > 0 {
            "发现格式问题"@
        } else if has_unsaved_changes {
            "草稿待保存"@
        } else {
            "当前内容已同步"@
        }),
        v.status_detail@ == (if editor_model(links_text@).invalid > 0 {
            "先修正格式不正确的链接，再执行保存。"@
        } else if has_unsaved_changes {
            crate::actions::draft_note_text(editor_model(links_text@).normalized.len(), editor_model(links_text@).duplicate, editor_model(links_text@).blank)
        } else {
            "当前编辑器内容已经与已保存版本一致。"@
        }),
        v.save_label@ == (if save_pending {
            "保存中…"@
        } else if has_unsaved_changes && (editor_model(links_text@).blank > 0 || editor_model(links_text@).duplicate > 0) {
            "保存并归一化"@
        } else {
            "保存源链接"@
        }),
        v.save_enabled == (!(save_pending || delete_pending) && has_unsaved_changes && editor_model(links_text@).invalid
            == 0),
        v.delete_label@ == (if delete_pending {
            "删除中…"@
        } else if confirm_delete {
            "请在下方确认"@
        } else {
            "删除订阅组"@
        }),
        v.confirm_delete_label@ == (if delete_pending {
            "删除中…"@
        } else {
            "确认删除订阅组"@
        }),
        v.editor_class@ == (if links_error is Some {
            "source-editor source-editor--error"@
        } else {
            "source-editor"@
        }),
        v.empty_preview_note@ == (if editor_model(links_text@).invalid > 0 {
            "当前草稿里还没有可保存的有效链接。"@
        } else {
            "当前草稿为空，保存后会清空这个订阅组的源链接。"@
        }),
{
    let stats = analyze_links(links_text, 4);
    let preview_len = stats.normalized_preview.len();
    assert(string_views(stats.normalized_preview@).len() == stats.normalized_preview@.len());
    let preview_overflow = if stats.normalized_count > preview_len {
        stats.normalized_count - preview_len
    } else {
        0
    };
    let busy = save_pending || delete_pending;
    let editor_class = if links_error.is_some() {
        "source-editor source-editor--error"
    } else {
        "source-editor"
    };
    let (field_note, field_note_is_error) = match links_error {
        Some(e) => (e, true),
        None => match &stats.first_invalid {
            Some(first) => {
                let mut s = String::new();
                push_lit(&mut s, "发现 ");
                push_decimal(&mut s, stats.invalid_count as u64);
                push_lit(&mut s, " 条格式不正确的链接，保存前需要修正。首条问题：");
                push_lit(&mut s, first.as_str());
                (s, true)
            },
            None => if has_unsaved_changes {
                ("当前有未保存草稿，切换订阅组后会在当前浏览器会话中保留。".to_string(), false)
            } else {
                ("仅支持 HTTP/HTTPS，私网地址和不可解析目标会被拒绝。".to_string(), false)
            },
        },
    };
    let status_title = if stats.invalid_count > 0 {
        "发现格式问题"
    } else if has_unsaved_changes {
        "草稿待保存"
    } else {
        "当前内容已同步"
    };
    let status_detail = if stats.invalid_count > 0 {
        "先修正格式不正确的链接，再执行保存。".to_string()
    } else if has_unsaved_changes {
        crate::actions::draft_status_note(&stats)
    } else {
        "当前编辑器内容已经与已保存版本一致。".to_string()
    };
    let save_label = if save_pending {
        "保存中…"
    } else if has_unsaved_changes && (stats.blank_count > 0 || stats.duplicate_count > 0) {
        "保存并归一化"
    } else {
        "保存源链接"
    };
    let save_enabled = !busy && has_unsaved_changes && stats.invalid_count == 0;
    let delete_label = if delete_pending {
        "删除中…"
    } else if confirm_delete {
        "请在下方确认"
    } else {
        "删除订阅组"
    };
    let confirm_delete_label = if delete_pending {
        "删除中…"
    } else {
        "确认删除订阅组"
    };
    let empty_preview_note = if stats.invalid_count > 0 {
        "当前草稿里还没有可保存的有效链接。"
    } else {
        "当前草稿为空，保存后会清空这个订阅组的源链接。"
    };
    EditorView {
        stats,
        preview_overflow,
        field_note,
        field_note_is_error,
        status_title,
        status_detail,
        save_label,
        save_enabled,
        delete_label,
        confirm_delete_label,
        editor_class,
        busy,
        empty_preview_note,
    }
}

/// The search text as the group list matches it: trimmed, ASCII letters
/// in lower case.
pub open spec fn search_key(query: Seq<char>) -> Seq<char> {
    ascii_lowercase(trim(query))
}

/// The groups whose lower-cased name holds `key`, in order.
pub open spec fn matching_groups(users: Seq<GroupSummary>, key: Seq<char>) -> Seq<GroupSummary>
    decreases users.len(),
{
    if users.len() == 0 {
        seq![]
    } else if contains_seq(ascii_lowercase(users.last().username@), key) {
        matching_groups(users.drop_last(), key).push(users.last())
    } else {
        matching_groups(users.drop_last(), key)
    }
}

/// What the body of the group list shows.
#[derive(Clone, Copy, Debug, PartialEq, Eq)]
pub enum UsersBody {
    Loading,
    NoGroups,
    NoMatches,
    Listed,
}

/// What the group list shows.
pub struct UsersPanelView {
    pub user_count: usize,
    /// Reordering is offered only without a search.
    pub sorting_enabled: bool,
    pub visible: Vec<GroupSummary>,
    pub show_toolbar: bool,
    pub body: UsersBody,
    pub create_label: &'static str,
}

fn copy_group(u: &GroupSummary) -> (r: GroupSummary)
    ensures
        r == *u,
{
    GroupSummary { username: u.username.clone() }
}

/// Works out what the group list shows for a search text.
pub fn users_panel_view(users: Option<Vec<GroupSummary>>, search: &str, create_pending: bool) -> (v: UsersPanelView)
    ensures
        ({
            let list = match users {
                Some(u) => u@,
                None => Seq::<GroupSummary>::empty(),
            };
            let key = search_key(search@);
            &&& v.user_count == list.len()
            &&& v.sorting_enabled == (key.len() == 0)
            &&& v.visible@ == (if key.len() == 0 {
                list
            } else {
                matching_groups(list, key)
            })
            &&& v.show_toolbar == (users is Some && list.len() > 0)
            &&& v.body == (if users is None {
                UsersBody::Loading
            } else if list.len() == 0 {
                UsersBody::NoGroups
            } else if v.visible@.len() == 0 {
                UsersBody::NoMatches
            } else {
                UsersBody::Listed
            })
            &&& v.create_label@ == (if create_pending {
                "创建中…"@
            } else {
                "新建"@
            })
        }),
{
    let loaded = users.is_some();
    let list = match users {
        Some(u) => u,
        None => Vec::new(),
    };
    let t = trim_chars(chars_of(search).as_slice());
    let key = ascii_lowercase_chars(t.as_slice());
    let sorting_enabled = key.len() == 0;
    let n = list.len();
    let mut visible: Vec<GroupSummary> = Vec::new();
    let mut i: usize = 0;
    while i < n
        invariant
            n == list@.len(),
            key@ == search_key(search@),
            sorting_enabled == (key@.len() == 0),
            i <= n,
            visible@ == (if sorting_enabled {
                list@.subrange(0, i as int)
            } else {
                matching_groups(list@.subrange(0, i as int), key@)
            }),
        decreases n - i,
    {
        proof {
            let s = list@.subrange(0, i + 1);
            assert(s.drop_last() =~= list@.subrange(0, i as int));
            assert(s.last() == list@[i as int]);
        }
        let keep = if sorting_enabled {
            true
        } else {
            let name = ascii_lowercase_chars(chars_of(list[i].username.as_str()).as_slice());
            chars_contain(name.as_slice(), key.as_slice())
        };
        let ghost before = visible@;
        if keep {
            visible.push(copy_group(&list[i]));
        }
        proof {
            if sorting_enabled {
                assert(visible@ =~= list@.subrange(0, i + 1));
            }
        }
        i = i + 1;
    }
    assert(list@.subrange(0, n as int) =~= list@);
    let body = if !loaded {
        UsersBody::Loading
    } else if n == 0 {
        UsersBody::NoGroups
    } else if visible.len() == 0 {
        UsersBody::NoMatches
    } else {
        UsersBody::Listed
    };
    UsersPanelView {
        user_count: n,
        sorting_enabled,
        visible,
        show_toolbar: loaded && n > 0,
        body,
        create_label: if create_pending {
            "创建中…"
        } else {
            "新建"
        },
    }
}

/// What a row of the group list shows.
pub struct UserRowView {
    pub is_selected: bool,
    pub public_route: String,
    pub can_move_up: bool,
    pub can_move_down: bool,
    pub card_class: &'static str,
    pub edit_button_class: &'static str,
    pub order_label: String,
    pub top_label: &'static str,
    pub up_label: &'static str,
    pub down_label: &'static str,
    pub bottom_label: &'static str,
}

/// Works out what the row at `index` of a list of `count` groups shows.
pub fn user_row_view(index: usize, username: &str, count: usize, selected: Option<&str>, reorder_pending: bool) -> (v: UserRowView)
    requires
        index < usize::MAX,
    ensures
        v.is_selected == (selected matches Some(s) && s@ == username@),
        v.public_route@ == route_of(username@),
        v.can_move_up == (index > 0),
        v.can_move_down == (index + 1 < count),
        v.card_class@ == (if v.is_selected {
            "user-card user-card--selected"@
        } else {
            "user-card"@
        }),
        v.edit_button_class@ == (if v.is_selected {
            "button button--primary button--compact"@
        } else {
            "button button--ghost button--compact"@
        }),
        v.order_label@ == "#"@ + decimal((index + 1) as nat),
        v.top_label@ == (if reorder_pending {
            "排序中…"@
        } else {
            "置顶"@
        }),
        v.up_label@ == (if reorder_pending {
            "排序中…"@
        } else {
            "上移"@
        }),
        v.down_label@ == (if reorder_pending {
            "排序中…"@
        } else {
            "下移"@
        }),
        v.bottom_label@ == (if reorder_pending {
            "排序中…"@
        } else {
            "置底"@
        }),
{
    let is_selected = match selected {
        Some(s) => crate::text::chars_eq(chars_of(s).as_slice(), chars_of(username).as_slice()),
        None => false,
    };
    let mut order_label = String::new();
    push_lit(&mut order_label, "#");
    push_decimal(&mut order_label, (index + 1) as u64);
    UserRowView {
        is_selected,
        public_route: route_for(username),
        can_move_up: index > 0,
        can_move_down: index + 1 < count,
        card_class: if is_selected {
            "user-card user-card--selected"
        } else {
            "user-card"
        },
        edit_button_class: if is_selected {
            "button button--primary button--compact"
        } else {
            "button button--ghost button--compact"
        },
        order_label,
        top_label: if reorder_pending {
            "排序中…"
        } else {
            "置顶"
        },
        up_label: if reorder_pending {
            "排序中…"
        } else {
            "上移"
        },
        down_label: if reorder_pending {
            "排序中…"
        } else {
            "下移"
        },
        bottom_label: if reorder_pending {
            "排序中…"
        } else {
            "置底"
        },
    }
}

/// The optional mode as text.
pub open spec fn mode_view(m: Option<&str>) -> Option<Seq<char>> {
    match m {
        Some(s) => Some(s@),
        None => None,
    }
}

/// The class of a navigation link: active when its mode is the page's.
pub fn route_link_class(active_mode: Option<&str>, link_mode: &str) -> (r: &'static str)
    ensures
        r@ == (if mode_view(active_mode) == Some(link_mode@) {
            "route-link route-link--active"@
        } else {
            "route-link"@
        }),
{
    let active = match active_mode {
        Some(m) => crate::text::chars_eq(chars_of(m).as_slice(), chars_of(link_mode).as_slice()),
        None => false,
    };
    if active {
        "route-link route-link--active"
    } else {
        "route-link"
    }
}

/// A name shortened for the top bar: names up to 22 bytes stay; longer
/// ones keep their first 19 bytes and gain `...`.
pub open spec fn workspace_label(username: Seq<char>, cut: int) -> Seq<char> {
    if utf8_len(username) <= 22 {
        username
    } else {
        username.take(cut) + "..."@
    }
}

/// Shortens a group name for the top bar.  A name longer than 22 bytes must
/// have a character boundary at byte 19 (the cut there would panic
/// otherwise).
pub fn topbar_workspace_label(username: &str) -> (r: String)
    requires
        utf8_len(username@) > 22 ==> exists|k: int| 0 <= k <= username@.len() && utf8_len(
            #[trigger] username@.take(k),
        ) == 19,
    ensures
        utf8_len(username@) <= 22 ==> r@ == username@,
        utf8_len(username@) > 22 ==> exists|k: int| 0 <= k <= username@.len() && utf8_len(
            #[trigger] username@.take(k),
        ) == 19 && r@ == username@.take(k) + "..."@,
{
    let cs = chars_of(username);
    let n = cs.len();
    let mut bytes: u64 = 0;
    let mut i: usize = 0;
    proof {
        assert(username@.take(0) =~= Seq::<char>::empty());
    }
    while i < n && bytes <= 22
        invariant
            n == cs@.len(),
            cs@ == username@,
            i <= n,
            bytes == utf8_len(username@.take(i as int)),
            bytes <= 26,
        decreases n - i,
    {
        proof {
            assert(username@.take(i + 1) =~= username@.take(i as int) + seq![username@[i as int]]);
            crate::text::lemma_utf8_len_concat(username@.take(i as int), seq![username@[i as int]]);
            lemma_utf8_len_single(username@[i as int]);
        }
        bytes = bytes + char_len_utf8(cs[i]);
        i = i + 1;
    }
    proof {
        lemma_utf8_prefix_monotone(username@, i as int);
    }
    if bytes <= 22 {
        proof {
            assert(username@.take(i as int) =~= username@);
        }
        return username.to_string();
    }
    let mut r = String::new();
    let mut j: usize = 0;
    let mut b: u64 = 0;
    proof {
        let k = choose|k: int| 0 <= k <= username@.len() && utf8_len(#[trigger] username@.take(k)) == 19;
        lemma_utf8_prefix_monotone(username@, k);
    }
    while b < 19
        invariant
            n == cs@.len(),
            cs@ == username@,
            j <= n,
            b == utf8_len(username@.take(j as int)),
            r@ == username@.take(j as int),
            exists|k: int| 0 <= k <= username@.len() && utf8_len(#[trigger] username@.take(k)) == 19,
            b <= 19,
        decreases 19 - b,
    {
        let ghost k = choose|k: int| 0 <= k <= username@.len() && utf8_len(#[trigger] username@.take(k)) == 19;
        proof {
            lemma_prefix_len_order(username@, j as int, k);
        }
        proof {
            assert(username@.take(j + 1) =~= username@.take(j as int) + seq![username@[j as int]]);
            crate::text::lemma_utf8_len_concat(username@.take(j as int), seq![username@[j as int]]);
            lemma_utf8_len_single(username@[j as int]);
            lemma_prefix_len_order(username@, j + 1, k);
        }
        crate::text::push_char(&mut r, cs[j]);
        b = b + char_len_utf8(cs[j]);
        j = j + 1;
    }
    push_lit(&mut r, "...");
    r
}

proof fn lemma_utf8_len_single(c: char)
    ensures
        utf8_len(seq![c]) == char_utf8_len(c),
{
    assert(seq![c].drop_first() =~= Seq::<char>::empty());
    assert(utf8_len(Seq::<char>::empty()) == 0);
}

proof fn lemma_utf8_prefix_monotone(s: Seq<char>, i: int)
    requires
        0 <= i <= s.len(),
    ensures
        utf8_len(s.take(i)) <= utf8_len(s),
    decreases s.len() - i,
{
    if i < s.len() {
        lemma_utf8_prefix_monotone(s, i + 1);
        assert(s.take(i + 1) =~= s.take(i) + seq![s[i]]);
        crate::text::lemma_utf8_len_concat(s.take(i), seq![s[i]]);
        lemma_utf8_len_single(s[i]);
    } else {
        assert(s.take(i) =~= s);
    }
}

proof fn lemma_prefix_len_order(s: Seq<char>, j: int, k: int)
    requires
        0 <= j <= s.len(),
        0 <= k <= s.len(),
    ensures
        j <= k ==> utf8_len(s.take(j)) <= utf8_len(s.take(k)),
        j > k ==> utf8_len(s.take(j)) > utf8_len(s.take(k)),
    decreases if j <= k {
        k - j
    } else {
        j - k
    },
{
    if j < k {
        lemma_prefix_len_order(s, j + 1, k);
        assert(s.take(j + 1) =~= s.take(j) + seq![s[j]]);
        crate::text::lemma_utf8_len_concat(s.take(j), seq![s[j]]);
        lemma_utf8_len_single(s[j]);
    } else if j > k {
        if j - 1 > k {
            lemma_prefix_len_order(s, j - 1, k);
        }
        assert(s.take(j) =~= s.take(j - 1) + seq![s[j - 1]]);
        crate::text::lemma_utf8_len_concat(s.take(j - 1), seq![s[j - 1]]);
        lemma_utf8_len_single(s[j - 1]);
    }
}

/// `key` occurs in `name` starting at offset `j`.
proof fn lemma_found_at(name: Seq<char>, key: Seq<char>, j: int)
    requires
        0 <= j,
        j + key.len() <= name.len(),
        name.subrange(j, j + key.len()) == key,
    ensures
        contains_seq(name, key),
{
    assert(name.subrange(j, j + key.len()) == key);
}

proof fn lemma_matching_members(users: Seq<GroupSummary>, key: Seq<char>)
    ensures
        forall|i: int|
            0 <= i < matching_groups(users, key).len() ==> users.contains(
                #[trigger] matching_groups(users, key)[i],
            ) && contains_seq(ascii_lowercase(matching_groups(users, key)[i].username@), key),
        forall|i: int|
            0 <= i < users.len() && contains_seq(ascii_lowercase(users[i].username@), key)
                ==> matching_groups(users, key).contains(#[trigger] users[i]),
    decreases users.len(),
{
    if users.len() > 0 {
        let pre = users.drop_last();
        lemma_matching_members(pre, key);
        let m = matching_groups(pre, key);
        let mm = matching_groups(users, key);
        assert forall|i: int| 0 <= i < mm.len() implies users.contains(#[trigger] mm[i]) && contains_seq(
            ascii_lowercase(mm[i].username@),
            key,
        ) by {
            if i < m.len() {
                assert(mm[i] == m[i]);
                let j = choose|j: int| 0 <= j < pre.len() && pre[j] == m[i];
                assert(users[j] == pre[j]);
            } else {
                assert(mm[i] == users.last());
                assert(users[users.len() - 1] == users.last());
            }
        }
        assert forall|i: int|
            0 <= i < users.len() && contains_seq(ascii_lowercase(users[i].username@), key) implies mm.contains(
            #[trigger] users[i],
        ) by {
            if i < pre.len() {
                assert(pre[i] == users[i]);
                let j = choose|j: int| 0 <= j < m.len() && m[j] == pre[i];
                assert(mm[j] == m[j]);
            } else {
                assert(users[i] == users.last());
                assert(mm[m.len() as int] == users.last());
            }
        }
    }
}

/// With a non-blank search, the group list shows exactly the groups whose
/// lower-cased name holds the trimmed, lower-cased search text at some
/// offset (anywhere in the name, not only at its start).
pub proof fn law_search_finds_substrings(users: Seq<GroupSummary>, query: Seq<char>)
    ensures
        forall|i: int|
            0 <= i < matching_groups(users, search_key(query)).len() ==> users.contains(
                #[trigger] matching_groups(users, search_key(query))[i],
            ) && exists|j: int|
                0 <= j && j + search_key(query).len() <= ascii_lowercase(
                    matching_groups(users, search_key(query))[i].username@,
                ).len() && #[trigger] ascii_lowercase(
                    matching_groups(users, search_key(query))[i].username@,
                ).subrange(j, j + search_key(query).len()) == search_key(query),
        forall|i: int, j: int|
            0 <= i < users.len() && 0 <= j && j + search_key(query).len() <= ascii_lowercase(
                users[i].username@,
            ).len() && #[trigger] ascii_lowercase(users[i].username@).subrange(j, j + search_key(query).len())
                == search_key(query) ==> matching_groups(users, search_key(query)).contains(users[i]),
{
    let key = search_key(query);
    lemma_matching_members(users, key);
    assert forall|i: int, j: int|
        0 <= i < users.len() && 0 <= j && j + key.len() <= ascii_lowercase(users[i].username@).len()
            && #[trigger] ascii_lowercase(users[i].username@).subrange(j, j + key.len()) == key implies matching_groups(
        users,
        key,
    ).contains(users[i]) by {
        lemma_found_at(ascii_lowercase(users[i].username@), key, j);
    }
}

} // verus!
