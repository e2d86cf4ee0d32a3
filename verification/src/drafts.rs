//! The console's link drafts: per subscription group, the saved links text
//! and an unsaved draft, which survive switching between groups.
use vstd::prelude::*;
use crate::links::{links_of, nonblank_trimmed, string_views, text_lines};
use crate::shared::UserLinksResponse;
use crate::text::{
    chars_eq, chars_of, lemma_split_on_joined, lemma_split_on_pieces, lemma_split_on_without,
    lemma_trim_trimmed, push_lit, split_on, trim,
};
use crate::text_map::{text_or_empty, TextMap};

verus! {

/// Texts joined with a line break between each two.
pub open spec fn lines_joined(s: Seq<Seq<char>>) -> Seq<char>
    decreases s.len(),
{
    if s.len() == 0 {
        seq![]
    } else if s.len() == 1 {
        s[0]
    } else {
        lines_joined(s.drop_last()) + "\n"@ + s.last()
    }
}

/// Joins texts with line breaks, as `join("\n")` does.
pub fn join_lines(lines: &[String]) -> (r: String)
    ensures
        r@ == lines_joined(string_views(lines@)),
{
    let n = lines.len();
    let mut r = String::new();
    let mut i: usize = 0;
    while i < n
        invariant
            n == lines@.len(),
            i <= n,
            r@ == lines_joined(string_views(lines@.subrange(0, i as int))),
        decreases n - i,
    {
        proof {
            let t = string_views(lines@.subrange(0, i + 1));
            assert(t.drop_last() =~= string_views(lines@.subrange(0, i as int)));
            assert(t.last() == lines@[i as int]@);
            assert(t.len() == i + 1);
            if i == 0 {
                assert(t[0] == lines@[0]@);
            }
        }
        if i > 0 {
            push_lit(&mut r, "\n");
        }
        push_lit(&mut r, lines[i].as_str());
        i = i + 1;
    }
    assert(lines@.subrange(0, n as int) =~= lines@);
    r
}

/// The links text shown for a group: its draft, else its saved text, else
/// nothing.
pub open spec fn shown_text(
    saved: Map<Seq<char>, Seq<char>>,
    draft: Map<Seq<char>, Seq<char>>,
    username: Seq<char>,
) -> Seq<char> {
    if draft.contains_key(username) {
        draft[username]
    } else {
        text_or_empty(saved, username)
    }
}

/// The draft map after the text of a group's editor became `next`: no draft
/// where it equals the saved text, else `next`.
pub open spec fn drafted(
    draft: Map<Seq<char>, Seq<char>>,
    saved: Map<Seq<char>, Seq<char>>,
    username: Seq<char>,
    next: Seq<char>,
) -> Map<Seq<char>, Seq<char>> {
    if next == text_or_empty(saved, username) {
        draft.remove(username)
    } else {
        draft.insert(username, next)
    }
}

/// Saved texts, drafts and the group whose text the editor shows.
pub struct LinkDraftState {
    pub saved_by_user: TextMap,
    pub draft_by_user: TextMap,
    pub active_username: Option<String>,
}

impl LinkDraftState {
    /// Both maps are well formed.
    pub open spec fn wf(&self) -> bool {
        self.saved_by_user.wf() && self.draft_by_user.wf()
    }

    /// No draft equals the saved text of its group: a draft is kept only
    /// while it differs.
    pub open spec fn drafts_differ(&self) -> bool {
        forall|k: Seq<char>| #[trigger]
            self.draft_by_user.view().contains_key(k) ==> self.draft_by_user.view()[k]
                != text_or_empty(self.saved_by_user.view(), k)
    }

    /// The text shown for a group.
    pub open spec fn shown(&self, username: Seq<char>) -> Seq<char> {
        shown_text(self.saved_by_user.view(), self.draft_by_user.view(), username)
    }

    /// Nothing saved, no drafts, no group.
    pub fn new() -> (r: Self)
        ensures
            r.wf(),
            r.drafts_differ(),
            r.saved_by_user.view() == Map::<Seq<char>, Seq<char>>::empty(),
            r.draft_by_user.view() == Map::<Seq<char>, Seq<char>>::empty(),
            r.active_username is None,
    {
        LinkDraftState {
            saved_by_user: TextMap::new(),
            draft_by_user: TextMap::new(),
            active_username: None,
        }
    }

    /// The editor switches to `selected`: when the group changes, the
    /// editor's text becomes what is shown for the new group (nothing
    /// without one).
    pub fn select(&mut self, selected: Option<String>, links_text: &mut String)
        requires
            old(self).wf(),
        ensures
            final(self).wf(),
            final(self).saved_by_user == old(self).saved_by_user,
            final(self).draft_by_user == old(self).draft_by_user,
            same_group(old(self).active_username, selected) ==> *final(self) == *old(self)
                && *final(links_text) == *old(links_text),
            !same_group(old(self).active_username, selected) ==> final(self).active_username
                == selected && final(links_text)@ == match selected {
                Some(u) => old(self).shown(u@),
                None => Seq::<char>::empty(),
            },
    {
        let same = match (&self.active_username, &selected) {
            (Some(a), Some(b)) => chars_eq(chars_of(a.as_str()).as_slice(), chars_of(b.as_str()).as_slice()),
            (None, None) => true,
            _ => false,
        };
        if same {
            return;
        }
        let next_text = match &selected {
            Some(u) => display_links_for_user(u.as_str(), &self.saved_by_user, &self.draft_by_user),
            None => String::new(),
        };
        self.active_username = selected;
        *links_text = next_text;
    }

    /// The links of a group were loaded: they become its saved text, a
    /// draft equal to them is dropped, and the editor of that group shows
    /// what is now shown for it.
    pub fn apply_loaded(&mut self, payload: &UserLinksResponse, links_text: &mut String)
        requires
            old(self).wf(),
        ensures
            final(self).wf(),
            old(self).drafts_differ() ==> final(self).drafts_differ(),
            final(self).active_username == old(self).active_username,
            ({
                let u = payload.username@;
                let t = lines_joined(string_views(payload.links@));
                &&& final(self).saved_by_user.view() == old(self).saved_by_user.view().insert(u, t)
                &&& final(self).draft_by_user.view() == (if old(
                    self,
                ).draft_by_user.view().contains_key(u) && old(self).draft_by_user.view()[u] == t {
                    old(self).draft_by_user.view().remove(u)
                } else {
                    old(self).draft_by_user.view()
                })
                &&& if same_group(old(self).active_username, Some(payload.username)) {
                    final(links_text)@ == final(self).shown(u)
                } else {
                    *final(links_text) == *old(links_text)
                }
            }),
    {
        let username = payload.username.as_str();
        let saved_text = join_lines(payload.links.as_slice());
        self.saved_by_user.insert(username, saved_text.as_str());
        match self.draft_by_user.get(username) {
            Some(d) => {
                if chars_eq(chars_of(d.as_str()).as_slice(), chars_of(saved_text.as_str()).as_slice()) {
                    self.draft_by_user.remove(username);
                }
            },
            None => {},
        }
        let is_active = match &self.active_username {
            Some(a) => chars_eq(chars_of(a.as_str()).as_slice(), chars_of(username).as_slice()),
            None => false,
        };
        if is_active {
            *links_text = display_links_for_user(username, &self.saved_by_user, &self.draft_by_user);
        }
    }
}

/// Two optional group names name the same group.
pub open spec fn same_group(a: Option<String>, b: Option<String>) -> bool {
    match (a, b) {
        (Some(x), Some(y)) => x@ == y@,
        (None, None) => true,
        _ => false,
    }
}

/// The links text shown for a group: its draft, else its saved text.
pub fn display_links_for_user(username: &str, saved_by_user: &TextMap, draft_by_user: &TextMap) -> (r: String)
    requires
        saved_by_user.wf(),
        draft_by_user.wf(),
    ensures
        r@ == shown_text(saved_by_user.view(), draft_by_user.view(), username@),
{
    match draft_by_user.get(username) {
        Some(d) => d,
        None => saved_by_user.get_or_empty(username),
    }
}

/// Records the editor's text of a group as its draft, or drops the draft
/// when the text equals the saved one.
pub fn update_draft_map(draft_by_user: &mut TextMap, saved_by_user: &TextMap, username: &str, next_text: &str)
    requires
        old(draft_by_user).wf(),
        saved_by_user.wf(),
    ensures
        final(draft_by_user).wf(),
        final(draft_by_user).view() == drafted(
            old(draft_by_user).view(),
            saved_by_user.view(),
            username@,
            next_text@,
        ),
{
    let saved_text = saved_by_user.get_or_empty(username);
    if chars_eq(chars_of(next_text).as_slice(), chars_of(saved_text.as_str()).as_slice()) {
        draft_by_user.remove(username);
    } else {
        draft_by_user.insert(username, next_text);
    }
}

/// The editor's text of a group changed.  Afterwards the group shows that
/// text, and it counts as unsaved exactly when it differs from the saved
/// text; other groups are untouched.
pub fn remember_links_input(username: &str, next_text: &str, drafts: &mut LinkDraftState)
    requires
        old(drafts).wf(),
    ensures
        final(drafts).wf(),
        old(drafts).drafts_differ() ==> final(drafts).drafts_differ(),
        final(drafts).saved_by_user == old(drafts).saved_by_user,
        final(drafts).active_username == old(drafts).active_username,
        final(drafts).draft_by_user.view() == drafted(
            old(drafts).draft_by_user.view(),
            old(drafts).saved_by_user.view(),
            username@,
            next_text@,
        ),
        final(drafts).shown(username@) == next_text@,
        forall|k: Seq<char>| k != username@ ==> #[trigger] final(drafts).shown(k) == old(drafts).shown(k),
{
    update_draft_map(&mut drafts.draft_by_user, &drafts.saved_by_user, username, next_text);
}

/// A group's links were saved as `saved_text`: it becomes the saved text
/// and the draft is dropped, so the group shows the saved text.
pub fn mark_links_saved(username: &str, saved_text: &str, drafts: &mut LinkDraftState)
    requires
        old(drafts).wf(),
    ensures
        final(drafts).wf(),
        old(drafts).drafts_differ() ==> final(drafts).drafts_differ(),
        final(drafts).active_username == old(drafts).active_username,
        final(drafts).saved_by_user.view() == old(drafts).saved_by_user.view().insert(
            username@,
            saved_text@,
        ),
        final(drafts).draft_by_user.view() == old(drafts).draft_by_user.view().remove(username@),
        final(drafts).shown(username@) == saved_text@,
{
    drafts.saved_by_user.insert(username, saved_text);
    drafts.draft_by_user.remove(username);
}

/// A group was deleted: its saved text and draft are dropped.
pub fn clear_links_state_for_user(username: &str, drafts: &mut LinkDraftState)
    requires
        old(drafts).wf(),
    ensures
        final(drafts).wf(),
        old(drafts).drafts_differ() ==> final(drafts).drafts_differ(),
        final(drafts).active_username == old(drafts).active_username,
        final(drafts).saved_by_user.view() == old(drafts).saved_by_user.view().remove(username@),
        final(drafts).draft_by_user.view() == old(drafts).draft_by_user.view().remove(username@),
        final(drafts).shown(username@) == Seq::<char>::empty(),
{
    drafts.saved_by_user.remove(username);
    drafts.draft_by_user.remove(username);
}

/// The editor's text differs from what was saved for the selected group.
pub open spec fn unsaved(selected: Option<Seq<char>>, current: Seq<char>, saved: Map<Seq<char>, Seq<char>>) -> bool {
    match selected {
        None => false,
        Some(u) => current != text_or_empty(saved, u),
    }
}

/// Whether the editor's text differs from what was saved for the selected
/// group.
pub fn has_unsaved_links(selected_username: Option<&str>, current_links_text: &str, drafts: &LinkDraftState) -> (r: bool)
    requires
        drafts.wf(),
    ensures
        r == unsaved(
            match selected_username {
                Some(u) => Some(u@),
                None => None,
            },
            current_links_text@,
            drafts.saved_by_user.view(),
        ),
{
    match selected_username {
        None => false,
        Some(username) => {
            let saved = drafts.saved_by_user.get_or_empty(username);
            !chars_eq(chars_of(current_links_text).as_slice(), chars_of(saved.as_str()).as_slice())
        },
    }
}

/// What one edit leaves unsaved: after the editor's text of a group
/// becomes `next`, the group shows `next`, and it is unsaved exactly when
/// `next` differs from the saved text.
pub proof fn law_edit_shown_and_unsaved(
    saved: Map<Seq<char>, Seq<char>>,
    draft: Map<Seq<char>, Seq<char>>,
    username: Seq<char>,
    next: Seq<char>,
)
    ensures
        shown_text(saved, drafted(draft, saved, username, next), username) == next,
        unsaved(Some(username), next, saved) == drafted(draft, saved, username, next).contains_key(
            username,
        ),
{
}

/// Each text is trimmed, not empty, and holds no line break.
pub open spec fn clean_lines(ls: Seq<Seq<char>>) -> bool {
    forall|i: int|
        0 <= i < ls.len() ==> {
            &&& trim(#[trigger] ls[i]) == ls[i]
            &&& ls[i].len() > 0
            &&& forall|j: int| 0 <= j < ls[i].len() ==> ls[i][j] != '\n'
        }
}

proof fn lemma_nonblank_trimmed_clean(lines: Seq<Seq<char>>)
    requires
        forall|i: int, j: int|
            0 <= i < lines.len() && 0 <= j < lines[i].len() ==> lines[i][j] != '\n',
    ensures
        clean_lines(nonblank_trimmed(lines)),
    decreases lines.len(),
{
    if lines.len() > 0 {
        lemma_nonblank_trimmed_clean(lines.drop_last());
        let rest = nonblank_trimmed(lines.drop_last());
        let l = lines.last();
        let t = trim(l);
        lemma_trim_trimmed(l);
        if t.len() > 0 {
            let r = rest.push(t);
            assert forall|i: int| 0 <= i < r.len() implies {
                &&& trim(#[trigger] r[i]) == r[i]
                &&& r[i].len() > 0
                &&& forall|j: int| 0 <= j < r[i].len() ==> r[i][j] != '\n'
            } by {
                if i < rest.len() {
                    assert(r[i] == rest[i]);
                } else {
                    assert(r[i] == t);
                    assert forall|j: int| 0 <= j < t.len() implies t[j] != '\n' by {
                        let k = choose|k: int| 0 <= k < l.len() && l[k] == #[trigger] t[j];
                        assert(l[k] == lines[lines.len() - 1][k]);
                    }
                }
            }
        }
    }
}

proof fn lemma_nonblank_trimmed_fixed(ls: Seq<Seq<char>>)
    requires
        clean_lines(ls),
    ensures
        nonblank_trimmed(ls) == ls,
    decreases ls.len(),
{
    if ls.len() > 0 {
        assert(clean_lines(ls.drop_last())) by {
            assert forall|i: int| 0 <= i < ls.drop_last().len() implies {
                &&& trim(#[trigger] ls.drop_last()[i]) == ls.drop_last()[i]
                &&& ls.drop_last()[i].len() > 0
                &&& forall|j: int| 0 <= j < ls.drop_last()[i].len() ==> ls.drop_last()[i][j] != '\n'
            } by {
                assert(ls.drop_last()[i] == ls[i]);
            }
        }
        lemma_nonblank_trimmed_fixed(ls.drop_last());
        assert(ls.last() == ls[ls.len() - 1]);
        assert(ls.drop_last().push(ls.last()) =~= ls);
    }
}

proof fn lemma_split_lines_joined(ls: Seq<Seq<char>>)
    requires
        ls.len() >= 1,
        clean_lines(ls),
    ensures
        split_on(lines_joined(ls), '\n') == ls,
    decreases ls.len(),
{
    if ls.len() == 1 {
        assert(ls[0] == ls[0]);
        lemma_split_on_without(ls[0], '\n');
        assert(seq![ls[0]] =~= ls);
    } else {
        let pre = ls.drop_last();
        assert(clean_lines(pre)) by {
            assert forall|i: int| 0 <= i < pre.len() implies {
                &&& trim(#[trigger] pre[i]) == pre[i]
                &&& pre[i].len() > 0
                &&& forall|j: int| 0 <= j < pre[i].len() ==> pre[i][j] != '\n'
            } by {
                assert(pre[i] == ls[i]);
            }
        }
        lemma_split_lines_joined(pre);
        reveal_strlit("\n");
        assert("\n"@ =~= seq!['\n']);
        assert(ls.last() == ls[ls.len() - 1]);
        lemma_split_on_without(ls.last(), '\n');
        lemma_split_on_joined(lines_joined(pre), ls.last(), '\n');
        assert(lines_joined(ls) == lines_joined(pre) + seq!['\n'] + ls.last());
        assert(pre + seq![ls.last()] =~= ls);
    }
}

/// Reading links back from a text's links joined with line breaks gives the
/// same links: saved links read back unchanged.
pub proof fn law_joined_links_read_back(text: Seq<char>)
    ensures
        links_of(lines_joined(links_of(text))) == links_of(text),
{
    let lines = text_lines(text);
    lemma_split_on_pieces(text, '\n');
    lemma_nonblank_trimmed_clean(lines);
    let ls = links_of(text);
    if ls.len() == 0 {
        let j = lines_joined(ls);
        assert(j == Seq::<char>::empty());
        let pieces = text_lines(j);
        assert(pieces =~= seq![Seq::<char>::empty()]);
        assert(pieces.drop_last() =~= Seq::<Seq<char>>::empty());
        assert(trim(pieces.last()).len() == 0) by {
            lemma_trim_trimmed(pieces.last());
            assert(pieces.last().len() == 0);
        }
        assert(nonblank_trimmed(pieces.drop_last()) =~= Seq::<Seq<char>>::empty());
        assert(nonblank_trimmed(pieces) == nonblank_trimmed(pieces.drop_last()));
        assert(links_of(j) =~= Seq::<Seq<char>>::empty());
    } else {
        lemma_split_lines_joined(ls);
        lemma_nonblank_trimmed_fixed(ls);
    }
}

} // verus!
