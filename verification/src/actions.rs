//! The console's actions: reordering groups, and how the outcome of each
//! request changes the page (messages, fields, drafts, reloads).
use vstd::prelude::*;
use crate::console::{FeedbackSignals, RefreshState};
use crate::drafts::{
    lines_joined, join_lines, mark_links_saved, clear_links_state_for_user, LinkDraftState,
};
use crate::links::{string_views, DraftLinkStats};
use crate::messages::{extract_field_validation_error, field_error_text};
use crate::shared::{UserCacheStatusResponse, UserLinksResponse, UserSummary};
use crate::text::{chars_eq, chars_of, decimal, push_decimal, push_lit, trim, trim_str};

verus! {

/// The names of the listed groups.
pub open spec fn names_of(users: Seq<UserSummary>) -> Seq<Seq<char>> {
    users.map_values(|u: UserSummary| u.username@)
}

/// Where `name` first occurs in `names`.
pub open spec fn first_index(names: Seq<Seq<char>>, name: Seq<char>) -> Option<int>
    decreases names.len(),
{
    if names.len() == 0 {
        None
    } else if names[0] == name {
        Some(0)
    } else {
        match first_index(names.drop_first(), name) {
            Some(i) => Some(i + 1),
            None => None,
        }
    }
}

proof fn lemma_first_index(names: Seq<Seq<char>>, name: Seq<char>)
    ensures
        match first_index(names, name) {
            Some(i) => 0 <= i < names.len() && names[i] == name && forall|j: int|
                0 <= j < i ==> names[j] != name,
            None => forall|j: int| 0 <= j < names.len() ==> names[j] != name,
        },
    decreases names.len(),
{
    if names.len() > 0 && names[0] != name {
        lemma_first_index(names.drop_first(), name);
        match first_index(names.drop_first(), name) {
            Some(i) => {
                assert forall|j: int| 0 <= j < i + 1 implies names[j] != name by {
                    if j > 0 {
                        assert(names[j] == names.drop_first()[j - 1]);
                    }
                }
            },
            None => {
                assert forall|j: int| 0 <= j < names.len() implies names[j] != name by {
                    if j > 0 {
                        assert(names[j] == names.drop_first()[j - 1]);
                    }
                }
            },
        }
    }
}

/// The order after the named group moves by `offset` places, swapping with
/// the group there; `None` when it is not listed or would leave the list.
pub open spec fn reordered(names: Seq<Seq<char>>, name: Seq<char>, offset: int) -> Option<
    Seq<Seq<char>>,
> {
    match first_index(names, name) {
        None => None,
        Some(p) => {
            let t = p + offset;
            if t < 0 || t >= names.len() {
                None
            } else {
                Some(names.update(p, names[t]).update(t, names[p]))
            }
        },
    }
}

/// The order after the named group moves to the start or the end; `None`
/// when it is not listed or is there already.
pub open spec fn moved_to_edge(names: Seq<Seq<char>>, name: Seq<char>, to_start: bool) -> Option<
    Seq<Seq<char>>,
> {
    match first_index(names, name) {
        None => None,
        Some(p) => {
            let t = if to_start {
                0
            } else {
                names.len() - 1
            };
            if p == t {
                None
            } else {
                Some(names.remove(p).insert(t, names[p]))
            }
        },
    }
}

fn position_of(users: &[UserSummary], username: &str) -> (r: Option<usize>)
    ensures
        match r {
            Some(i) => first_index(names_of(users@), username@) == Some(i as int),
            None => first_index(names_of(users@), username@) is None,
        },
{
    let want = chars_of(username);
    let n = users.len();
    let ghost names = names_of(users@);
    proof {
        lemma_first_index(names, username@);
    }
    let mut i: usize = 0;
    while i < n
        invariant
            n == users@.len(),
            names == names_of(users@),
            want@ == username@,
            i <= n,
            forall|j: int| 0 <= j < i ==> names[j] != username@,
            match first_index(names, username@) {
                Some(k) => 0 <= k < names.len() && names[k] == username@ && forall|j: int|
                    0 <= j < k ==> names[j] != username@,
                None => forall|j: int| 0 <= j < names.len() ==> names[j] != username@,
            },
        decreases n - i,
    {
        let u = chars_of(users[i].username.as_str());
        if chars_eq(u.as_slice(), want.as_slice()) {
            proof {
                assert(names[i as int] == users@[i as int].username@);
                match first_index(names, username@) {
                    Some(k) => {
                        if k < i {
                        } else if k > i {
                            assert(names[i as int] == username@);
                        }
                    },
                    None => {
                        assert(names[i as int] == username@);
                    },
                }
            }
            return Some(i);
        }
        assert(names[i as int] == users@[i as int].username@);
        i = i + 1;
    }
    proof {
        match first_index(names, username@) {
            Some(k) => {
                assert(names[k] != username@);
            },
            None => {},
        }
    }
    None
}

fn username_list(users: &[UserSummary]) -> (r: Vec<String>)
    ensures
        string_views(r@) == names_of(users@),
{
    let n = users.len();
    let mut r: Vec<String> = Vec::new();
    let mut i: usize = 0;
    while i < n
        invariant
            n == users@.len(),
            i <= n,
            string_views(r@) == names_of(users@.subrange(0, i as int)),
        decreases n - i,
    {
        let ghost before = r@;
        r.push(users[i].username.clone());
        proof {
            assert(string_views(r@) =~= string_views(before).push(users@[i as int].username@));
            assert(names_of(users@.subrange(0, i + 1)) =~= names_of(users@.subrange(0, i as int)).push(
                users@[i as int].username@,
            ));
        }
        i = i + 1;
    }
    assert(users@.subrange(0, n as int) =~= users@);
    r
}

/// The order after the named group moves by `offset` places.
pub fn reordered_usernames(users: &[UserSummary], username: &str, offset: isize) -> (r: Option<Vec<String>>)
    requires
        users@.len() + offset <= isize::MAX,
    ensures
        match r {
            Some(v) => reordered(names_of(users@), username@, offset as int) == Some(string_views(v@)),
            None => reordered(names_of(users@), username@, offset as int) is None,
        },
{
    let position = match position_of(users, username) {
        Some(p) => p,
        None => return None,
    };
    proof {
        lemma_first_index(names_of(users@), username@);
    }
    let n = users.len();
    let target: i128 = position as i128 + offset as i128;
    if target < 0 || target >= n as i128 {
        return None;
    }
    let t = target as usize;
    let mut order = username_list(users);
    let ghost names = string_views(order@);
    let a = order[position].clone();
    let b = order[t].clone();
    order.set(position, b);
    order.set(t, a);
    proof {
        assert(string_views(order@) =~= names.update(position as int, names[t as int]).update(
            t as int,
            names[position as int],
        ));
    }
    Some(order)
}

/// The order after the named group moves to the start or the end.
pub fn move_username_to_edge(users: &[UserSummary], username: &str, to_start: bool) -> (r: Option<
    Vec<String>,
>)
    ensures
        match r {
            Some(v) => moved_to_edge(names_of(users@), username@, to_start) == Some(string_views(v@)),
            None => moved_to_edge(names_of(users@), username@, to_start) is None,
        },
{
    let position = match position_of(users, username) {
        Some(p) => p,
        None => return None,
    };
    proof {
        lemma_first_index(names_of(users@), username@);
    }
    let target = if to_start {
        0
    } else {
        users.len() - 1
    };
    if position == target {
        return None;
    }
    let mut order = username_list(users);
    let ghost names = string_views(order@);
    let ghost before = order@;
    let moved = order.remove(position);
    let ghost removed = order@;
    order.insert(target, moved);
    proof {
        assert(removed =~= before.remove(position as int));
        assert(string_views(removed) =~= names.remove(position as int));
        assert(string_views(order@) =~= names.remove(position as int).insert(
            target as int,
            names[position as int],
        ));
    }
    Some(order)
}

/// Moving a group down and then up again restores the order, when names
/// are distinct.
pub proof fn law_move_down_then_up(names: Seq<Seq<char>>, name: Seq<char>)
    requires
        forall|i: int, j: int| 0 <= i < j < names.len() ==> names[i] != names[j],
        reordered(names, name, 1) is Some,
    ensures
        reordered(reordered(names, name, 1).unwrap(), name, -1) == Some(names),
{
    lemma_first_index(names, name);
    let p = first_index(names, name).unwrap();
    let s2 = reordered(names, name, 1).unwrap();
    lemma_first_index(s2, name);
    assert(s2[p + 1] == name);
    assert forall|j: int| 0 <= j < p + 1 implies s2[j] != name by {
        if j == p {
            assert(s2[j] == names[p + 1]);
        } else {
            assert(s2[j] == names[j]);
        }
    }
    assert(first_index(s2, name) == Some(p + 1)) by {
        match first_index(s2, name) {
            Some(k) => {
                if k < p + 1 {
                    assert(s2[k] != name);
                } else if k > p + 1 {
                    assert(s2[p + 1] == name);
                }
            },
            None => {
                assert(s2[p + 1] == name);
            },
        }
    }
    assert(s2.update(p + 1, s2[p]).update(p, s2[p + 1]) =~= names);
}

/// Reordering keeps the same groups: it only permutes the names.
pub proof fn law_reorder_permutes(names: Seq<Seq<char>>, name: Seq<char>, offset: int, to_start: bool)
    ensures
        reordered(names, name, offset) matches Some(s) ==> s.to_multiset() == names.to_multiset(),
        moved_to_edge(names, name, to_start) matches Some(s) ==> s.to_multiset()
            == names.to_multiset(),
{
    broadcast use vstd::seq_lib::group_to_multiset_ensures;
    broadcast use vstd::multiset::group_multiset_axioms;

    lemma_first_index(names, name);
    if let Some(p) = first_index(names, name) {
        let t = p + offset;
        if 0 <= t < names.len() {
            let s1 = names.update(p, names[t]);
            let s = s1.update(t, names[p]);
            if p == t {
                assert(s =~= names);
            } else {
                vstd::seq_lib::to_multiset_update(names, p, names[t]);
                vstd::seq_lib::to_multiset_update(s1, t, names[p]);
                vstd::seq_lib::to_multiset_contains(names, names[t]);
                assert(names.contains(names[t]));
                assert(s1[t] == names[t]);
                assert(s.to_multiset() =~= names.to_multiset());
            }
        }
        let e = if to_start {
            0
        } else {
            names.len() - 1
        };
        if p != e {
            let r = names.remove(p);
            vstd::seq_lib::to_multiset_remove(names, p);
            vstd::seq_lib::to_multiset_insert(r, e, names[p]);
            vstd::seq_lib::to_multiset_contains(names, names[p]);
            assert(names.contains(names[p]));
            assert(r.insert(e, names[p]).to_multiset() =~= names.to_multiset());
        }
    }
}

/// The message after links were saved: cleared, or saved with what was
/// normalized away.
pub open spec fn saved_message_text(username: Seq<char>, saved_count: nat, duplicates: nat, blanks: nat) -> Seq<char> {
    if saved_count == 0 {
        "已清空 "@ + username + " 的源链接"@
    } else {
        let dup = "合并 "@ + decimal(duplicates) + " 条重复"@;
        let blank = "忽略 "@ + decimal(blanks) + " 行空白"@;
        let changes = if duplicates > 0 && blanks > 0 {
            dup + "，"@ + blank
        } else if duplicates > 0 {
            dup
        } else {
            blank
        };
        if duplicates == 0 && blanks == 0 {
            "已保存 "@ + username + " 的源链接，共 "@ + decimal(saved_count) + " 条"@
        } else {
            "已保存 "@ + username + " 的源链接，保留 "@ + decimal(saved_count) + " 条，"@ + changes
        }
    }
}

/// The message after links were saved.
pub fn saved_links_message(username: &str, saved_count: usize, draft_stats: &DraftLinkStats) -> (r: String)
    ensures
        r@ == saved_message_text(
            username@,
            saved_count as nat,
            draft_stats.duplicate_count as nat,
            draft_stats.blank_count as nat,
        ),
{
    let mut s = String::new();
    if saved_count == 0 {
        push_lit(&mut s, "已清空 ");
        push_lit(&mut s, username);
        push_lit(&mut s, " 的源链接");
        return s;
    }
    let dups = draft_stats.duplicate_count;
    let blanks = draft_stats.blank_count;
    push_lit(&mut s, "已保存 ");
    push_lit(&mut s, username);
    if dups == 0 && blanks == 0 {
        push_lit(&mut s, " 的源链接，共 ");
        push_decimal(&mut s, saved_count as u64);
        push_lit(&mut s, " 条");
        return s;
    }
    push_lit(&mut s, " 的源链接，保留 ");
    push_decimal(&mut s, saved_count as u64);
    push_lit(&mut s, " 条，");
    if dups > 0 {
        push_lit(&mut s, "合并 ");
        push_decimal(&mut s, dups as u64);
        push_lit(&mut s, " 条重复");
        if blanks > 0 {
            push_lit(&mut s, "，");
        }
    }
    if blanks > 0 {
        push_lit(&mut s, "忽略 ");
        push_decimal(&mut s, blanks as u64);
        push_lit(&mut s, " 行空白");
    }
    s
}

/// The editor's note on an unsaved draft: what saving will keep and
/// normalize.
pub open spec fn draft_note_text(normalized: nat, duplicates: nat, blanks: nat) -> Seq<char> {
    if normalized == 0 {
        "保存后会清空这个订阅组的源链接。"@
    } else {
        let dup = "合并 "@ + decimal(duplicates) + " 条重复链接"@;
        let blank = "忽略 "@ + decimal(blanks) + " 行空白"@;
        let notes = if duplicates > 0 && blanks > 0 {
            dup + "，"@ + blank
        } else if duplicates > 0 {
            dup
        } else {
            blank
        };
        if duplicates == 0 && blanks == 0 {
            "当前草稿将按填写顺序保存，共 "@ + decimal(normalized) + " 条。"@
        } else {
            "保存后保留 "@ + decimal(normalized) + " 条链接，并会自动"@ + notes + "。"@
        }
    }
}

/// The editor's note on an unsaved draft.
pub fn draft_status_note(stats: &DraftLinkStats) -> (r: String)
    ensures
        r@ == draft_note_text(
            stats.normalized_count as nat,
            stats.duplicate_count as nat,
            stats.blank_count as nat,
        ),
{
    let n = stats.normalized_count;
    if n == 0 {
        return "保存后会清空这个订阅组的源链接。".to_string();
    }
    let dups = stats.duplicate_count;
    let blanks = stats.blank_count;
    let mut s = String::new();
    if dups == 0 && blanks == 0 {
        push_lit(&mut s, "当前草稿将按填写顺序保存，共 ");
        push_decimal(&mut s, n as u64);
        push_lit(&mut s, " 条。");
        return s;
    }
    push_lit(&mut s, "保存后保留 ");
    push_decimal(&mut s, n as u64);
    push_lit(&mut s, " 条链接，并会自动");
    if dups > 0 {
        push_lit(&mut s, "合并 ");
        push_decimal(&mut s, dups as u64);
        push_lit(&mut s, " 条重复链接");
        if blanks > 0 {
            push_lit(&mut s, "，");
        }
    }
    if blanks > 0 {
        push_lit(&mut s, "忽略 ");
        push_decimal(&mut s, blanks as u64);
        push_lit(&mut s, " 行空白");
    }
    push_lit(&mut s, "。");
    s
}

/// An action starts only when it is not under way already; starting marks
/// it as under way and clears the messages.
pub fn start_action(pending: &mut bool, feedback: &mut FeedbackSignals) -> (r: bool)
    ensures
        r == !*old(pending),
        *final(pending),
        *old(pending) ==> *final(feedback) == *old(feedback),
        !*old(pending) ==> final(feedback).status_message is None && final(feedback).error_message is None,
{
    if *pending {
        return false;
    }
    feedback.clear();
    *pending = true;
    true
}

/// A links save starts like any action, and also clears the links field's
/// error.
pub fn start_links_save(
    pending: &mut bool,
    links_error: &mut Option<String>,
    feedback: &mut FeedbackSignals,
) -> (r: bool)
    ensures
        r == !*old(pending),
        *final(pending),
        *old(pending) ==> *final(feedback) == *old(feedback) && *final(links_error) == *old(
            links_error,
        ),
        !*old(pending) ==> final(feedback).status_message is None && final(feedback).error_message is None
            && *final(links_error) is None,
{
    if !start_action(pending, feedback) {
        return false;
    }
    *links_error = None;
    true
}

/// The counters stay below their limit, so each can be bumped once more.
pub open spec fn can_bump(r: RefreshState) -> bool {
    r.auth < u32::MAX && r.users < u32::MAX && r.links < u32::MAX && r.diagnostics < u32::MAX
        && r.cache < u32::MAX
}

/// Signing out finished: on success the message shows, the editor empties
/// and everything reloads; on failure the error shows.
/// Either way the action is no longer under way.
pub fn logout_done(
    outcome: Result<String, String>,
    links_text: &mut String,
    feedback: &mut FeedbackSignals,
    refresh: &mut RefreshState,
    pending: &mut bool,
)
    requires
        can_bump(*old(refresh)),
    ensures
        !*final(pending),
        match outcome {
            Ok(m) => final(feedback).status_message == Some(m) && final(feedback).error_message
                == old(feedback).error_message && final(links_text)@ == Seq::<char>::empty()
                && *final(refresh) == (RefreshState {
                auth: (old(refresh).auth + 1) as u32,
                users: (old(refresh).users + 1) as u32,
                links: (old(refresh).links + 1) as u32,
                diagnostics: (old(refresh).diagnostics + 1) as u32,
                cache: (old(refresh).cache + 1) as u32,
            }),
            Err(e) => final(feedback).error_message == Some(e) && final(feedback).status_message
                == old(feedback).status_message && *final(links_text) == *old(links_text)
                && *final(refresh) == *old(refresh),
        },
{
    *pending = false;
    match outcome {
        Ok(message) => {
            feedback.set_status(message);
            *links_text = String::new();
            refresh.bump_after_auth_change();
        },
        Err(error) => feedback.set_error(error),
    }
}

/// Signing in finished: on success the password field empties and
/// everything reloads; on failure the error shows.
/// Either way the action is no longer under way.
pub fn login_done(
    outcome: Result<String, String>,
    login_password: &mut String,
    feedback: &mut FeedbackSignals,
    refresh: &mut RefreshState,
    pending: &mut bool,
)
    requires
        can_bump(*old(refresh)),
    ensures
        !*final(pending),
        match outcome {
            Ok(_) => *final(feedback) == *old(feedback) && final(login_password)@ == Seq::<
                char,
            >::empty() && *final(refresh) == (RefreshState {
                auth: (old(refresh).auth + 1) as u32,
                users: (old(refresh).users + 1) as u32,
                links: (old(refresh).links + 1) as u32,
                diagnostics: (old(refresh).diagnostics + 1) as u32,
                cache: (old(refresh).cache + 1) as u32,
            }),
            Err(e) => final(feedback).error_message == Some(e) && final(feedback).status_message
                == old(feedback).status_message && *final(login_password) == *old(login_password)
                && *final(refresh) == *old(refresh),
        },
{
    *pending = false;
    match outcome {
        Ok(_) => {
            *login_password = String::new();
            refresh.bump_after_auth_change();
        },
        Err(error) => feedback.set_error(error),
    }
}

/// The account fields of the console.
pub struct AccountFields {
    pub username: String,
    pub current_password: String,
    pub new_password: String,
}

/// An account update finished: on success the message shows, the fields
/// empty and everything reloads; on failure the error shows.
/// Either way the action is no longer under way.
pub fn account_update_done(
    outcome: Result<String, String>,
    fields: &mut AccountFields,
    feedback: &mut FeedbackSignals,
    refresh: &mut RefreshState,
    pending: &mut bool,
)
    requires
        can_bump(*old(refresh)),
    ensures
        !*final(pending),
        match outcome {
            Ok(m) => final(feedback).status_message == Some(m) && final(feedback).error_message
                == old(feedback).error_message && final(fields).username@ == Seq::<char>::empty()
                && final(fields).current_password@ == Seq::<char>::empty()
                && final(fields).new_password@ == Seq::<char>::empty() && *final(refresh) == (
            RefreshState {
                auth: (old(refresh).auth + 1) as u32,
                users: (old(refresh).users + 1) as u32,
                links: (old(refresh).links + 1) as u32,
                diagnostics: (old(refresh).diagnostics + 1) as u32,
                cache: (old(refresh).cache + 1) as u32,
            }),
            Err(e) => final(feedback).error_message == Some(e) && final(feedback).status_message
                == old(feedback).status_message && *final(fields) == *old(fields) && *final(refresh)
                == *old(refresh),
        },
{
    *pending = false;
    match outcome {
        Ok(message) => {
            feedback.set_status(message);
            fields.username = String::new();
            fields.current_password = String::new();
            fields.new_password = String::new();
            refresh.bump_after_auth_change();
        },
        Err(error) => feedback.set_error(error),
    }
}

/// A group was created: the message names it, the name field empties, the
/// list and the selection reload, and the new group is to be opened.
/// Either way the action is no longer under way.
pub fn user_created(
    outcome: Result<UserSummary, String>,
    create_username: &mut String,
    feedback: &mut FeedbackSignals,
    refresh: &mut RefreshState,
    pending: &mut bool,
) -> (open: Option<String>)
    requires
        can_bump(*old(refresh)),
    ensures
        !*final(pending),
        match outcome {
            Ok(u) => {
                &&& open matches Some(name) && name@ == u.username@
                &&& final(feedback).status_message matches Some(m) && m@ == "已创建订阅组 "@ + u.username@
                &&& final(feedback).error_message == old(feedback).error_message
                &&& final(create_username)@ == Seq::<char>::empty()
                &&& *final(refresh) == (RefreshState {
                    users: (old(refresh).users + 1) as u32,
                    links: (old(refresh).links + 1) as u32,
                    diagnostics: (old(refresh).diagnostics + 1) as u32,
                    cache: (old(refresh).cache + 1) as u32,
                    ..*old(refresh)
                })
            },
            Err(e) => {
                &&& open is None
                &&& final(feedback).error_message == Some(e)
                &&& final(feedback).status_message == old(feedback).status_message
                &&& *final(create_username) == *old(create_username)
                &&& *final(refresh) == *old(refresh)
            },
        },
{
    *pending = false;
    match outcome {
        Ok(user) => {
            let username = user.username;
            let mut m = String::new();
            push_lit(&mut m, "已创建订阅组 ");
            push_lit(&mut m, username.as_str());
            feedback.set_status(m);
            *create_username = String::new();
            refresh.bump_after_user_change();
            Some(username)
        },
        Err(error) => {
            feedback.set_error(error);
            None
        },
    }
}

/// A new order was saved: the message shows and the list reloads.
/// Either way the action is no longer under way.
pub fn order_saved(
    outcome: Result<Vec<String>, String>,
    feedback: &mut FeedbackSignals,
    refresh: &mut RefreshState,
    pending: &mut bool,
)
    requires
        old(refresh).users < u32::MAX,
    ensures
        !*final(pending),
        match outcome {
            Ok(_) => final(feedback).status_message matches Some(m) && m@ == "已更新订阅组顺序"@
                && final(feedback).error_message == old(feedback).error_message && *final(refresh)
                == (RefreshState { users: (old(refresh).users + 1) as u32, ..*old(refresh) }),
            Err(e) => final(feedback).error_message == Some(e) && final(feedback).status_message
                == old(feedback).status_message && *final(refresh) == *old(refresh),
        },
{
    *pending = false;
    match outcome {
        Ok(_) => {
            feedback.set_status("已更新订阅组顺序".to_string());
            refresh.bump_users();
        },
        Err(error) => feedback.set_error(error),
    }
}

/// Links were saved: the normalized links become the saved text and the
/// editor's text, the field error clears, the message tells what was kept
/// and normalized, and the selection reloads.  A failure about the `links`
/// field shows at the field; any other failure shows as the page's error.
/// Either way the action is no longer under way.
pub fn links_saved(
    outcome: Result<UserLinksResponse, String>,
    draft_stats: &DraftLinkStats,
    links_text: &mut String,
    links_error: &mut Option<String>,
    drafts: &mut LinkDraftState,
    feedback: &mut FeedbackSignals,
    refresh: &mut RefreshState,
    pending: &mut bool,
)
    requires
        old(drafts).wf(),
        old(refresh).links < u32::MAX,
        old(refresh).diagnostics < u32::MAX,
        old(refresh).cache < u32::MAX,
    ensures
        !*final(pending),
        final(drafts).wf(),
        old(drafts).drafts_differ() ==> final(drafts).drafts_differ(),
        match outcome {
            Ok(resp) => {
                let text = lines_joined(string_views(resp.links@));
                &&& final(links_text)@ == text
                &&& final(drafts).shown(resp.username@) == text
                &&& final(drafts).saved_by_user.view() == old(drafts).saved_by_user.view().insert(
                    resp.username@,
                    text,
                )
                &&& *final(links_error) is None
                &&& final(feedback).status_message matches Some(m) && m@
                    == crate::actions::saved_message_text(
                    resp.username@,
                    resp.links@.len(),
                    draft_stats.duplicate_count as nat,
                    draft_stats.blank_count as nat,
                )
                &&& *final(refresh) == (RefreshState {
                    links: (old(refresh).links + 1) as u32,
                    diagnostics: (old(refresh).diagnostics + 1) as u32,
                    cache: (old(refresh).cache + 1) as u32,
                    ..*old(refresh)
                })
            },
            Err(e) => {
                &&& *final(links_text) == *old(links_text)
                &&& *final(drafts) == *old(drafts)
                &&& *final(refresh) == *old(refresh)
                &&& match field_error_text(e@, "links"@, "链接"@) {
                    Some(f) => final(links_error)@ matches Some(t) && t@ == f
                        && *final(feedback) == *old(feedback),
                    None => *final(links_error) == *old(links_error) && final(feedback).error_message
                        == Some(e),
                }
            },
        },
{
    *pending = false;
    match outcome {
        Ok(response) => {
            let normalized = join_lines(response.links.as_slice());
            mark_links_saved(response.username.as_str(), normalized.as_str(), drafts);
            *links_error = None;
            let message = saved_links_message(
                response.username.as_str(),
                response.links.len(),
                draft_stats,
            );
            *links_text = normalized;
            feedback.set_status(message);
            refresh.bump_selected_data();
        },
        Err(error) => {
            match extract_field_validation_error(error.as_str(), "links", "链接") {
                Some(message) => {
                    *links_error = Some(message);
                },
                None => feedback.set_error(error),
            }
        },
    }
}

/// A group was deleted: the message shows, the editor empties, the group's
/// drafts are dropped, the list and selection reload, and the page leaves
/// the group (`true`).
/// Either way the action is no longer under way.
pub fn user_deleted(
    outcome: Result<String, String>,
    username: &str,
    links_text: &mut String,
    drafts: &mut LinkDraftState,
    feedback: &mut FeedbackSignals,
    refresh: &mut RefreshState,
    pending: &mut bool,
) -> (leave: bool)
    requires
        old(drafts).wf(),
        old(refresh).users < u32::MAX,
        old(refresh).links < u32::MAX,
        old(refresh).diagnostics < u32::MAX,
        old(refresh).cache < u32::MAX,
    ensures
        !*final(pending),
        final(drafts).wf(),
        old(drafts).drafts_differ() ==> final(drafts).drafts_differ(),
        leave == outcome is Ok,
        match outcome {
            Ok(m) => final(feedback).status_message == Some(m) && final(links_text)@ == Seq::<
                char,
            >::empty() && final(drafts).shown(username@) == Seq::<char>::empty()
                && final(drafts).saved_by_user.view() == old(drafts).saved_by_user.view().remove(
                username@,
            ) && *final(refresh) == (RefreshState {
                users: (old(refresh).users + 1) as u32,
                links: (old(refresh).links + 1) as u32,
                diagnostics: (old(refresh).diagnostics + 1) as u32,
                cache: (old(refresh).cache + 1) as u32,
                ..*old(refresh)
            }),
            Err(e) => final(feedback).error_message == Some(e) && *final(links_text) == *old(
                links_text,
            ) && *final(drafts) == *old(drafts) && *final(refresh) == *old(refresh),
        },
{
    *pending = false;
    match outcome {
        Ok(message) => {
            feedback.set_status(message);
            *links_text = String::new();
            clear_links_state_for_user(username, drafts);
            refresh.bump_after_user_change();
            true
        },
        Err(error) => {
            feedback.set_error(error);
            false
        },
    }
}

/// The message after a cache refresh: the group and its line count.
pub open spec fn refreshed_message_text(username: Seq<char>, line_count: nat) -> Seq<char> {
    "已刷新 "@ + username + " 的缓存，共 "@ + decimal(line_count) + " 行"@
}

/// The cache was refreshed: the message tells the line count and the cache
/// status and diagnostics reload.
/// Either way the action is no longer under way.
pub fn cache_refreshed(
    outcome: Result<UserCacheStatusResponse, String>,
    feedback: &mut FeedbackSignals,
    refresh: &mut RefreshState,
    pending: &mut bool,
)
    requires
        old(refresh).diagnostics < u32::MAX,
        old(refresh).cache < u32::MAX,
    ensures
        !*final(pending),
        match outcome {
            Ok(s) => final(feedback).status_message matches Some(m) && m@ == refreshed_message_text(
                s.username@,
                s.line_count as nat,
            ) && *final(refresh) == (RefreshState {
                diagnostics: (old(refresh).diagnostics + 1) as u32,
                cache: (old(refresh).cache + 1) as u32,
                ..*old(refresh)
            }),
            Err(e) => final(feedback).error_message == Some(e) && *final(refresh) == *old(refresh),
        },
{
    *pending = false;
    match outcome {
        Ok(status) => {
            let mut m = String::new();
            push_lit(&mut m, "已刷新 ");
            push_lit(&mut m, status.username.as_str());
            push_lit(&mut m, " 的缓存，共 ");
            push_decimal(&mut m, status.line_count as u64);
            push_lit(&mut m, " 行");
            feedback.set_status(m);
            refresh.bump_after_cache_refresh();
        },
        Err(error) => feedback.set_error(error),
    }
}

/// The cache was cleared: the message shows and the cache status reloads.
/// Either way the action is no longer under way.
pub fn cache_cleared(
    outcome: Result<String, String>,
    feedback: &mut FeedbackSignals,
    refresh: &mut RefreshState,
    pending: &mut bool,
)
    requires
        old(refresh).cache < u32::MAX,
    ensures
        !*final(pending),
        match outcome {
            Ok(m) => final(feedback).status_message == Some(m) && *final(refresh) == (RefreshState {
                cache: (old(refresh).cache + 1) as u32,
                ..*old(refresh)
            }),
            Err(e) => final(feedback).error_message == Some(e) && *final(refresh) == *old(refresh),
        },
{
    *pending = false;
    match outcome {
        Ok(message) => {
            feedback.set_status(message);
            refresh.bump_cache();
        },
        Err(error) => feedback.set_error(error),
    }
}

/// The user name an account update sends: the typed one, or the current one
/// when the field is blank.
pub fn account_target_username(current_username: String, account_username: String) -> (r: String)
    ensures
        r@ == (if trim(account_username@).len() == 0 {
            current_username@
        } else {
            account_username@
        }),
{
    let t = trim_str(account_username.as_str());
    if t.as_str().unicode_len() == 0 {
        current_username
    } else {
        account_username
    }
}

} // verus!
