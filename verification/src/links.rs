//! Source links of a subscription group, as the console edits them: one link
//! per line.
use vstd::prelude::*;
use crate::text::{
    chars_eq, chars_of, split_chars, split_on, starts_with, string_of, trim, trim_chars, trim_end,
    trim_start,
};

verus! {

/// The host part of a link after its scheme: up to the first `/`, `?` or `#`.
pub open spec fn host_part(rest: Seq<char>) -> Seq<char>
    decreases rest.len(),
{
    if rest.len() == 0 || rest[0] == '/' || rest[0] == '?' || rest[0] == '#' {
        seq![]
    } else {
        seq![rest[0]] + host_part(rest.drop_first())
    }
}

/// The text after the `http://` or `https://` scheme, if it has one.
pub open spec fn after_scheme(link: Seq<char>) -> Option<Seq<char>> {
    if starts_with(link, "http://"@) {
        Some(link.subrange(7, link.len() as int))
    } else if starts_with(link, "https://"@) {
        Some(link.subrange(8, link.len() as int))
    } else {
        None
    }
}

/// A source link is an `http://` or `https://` URL with a non-empty host and
/// no white space.
pub open spec fn valid_source_url(link: Seq<char>) -> bool {
    &&& forall|i: int| 0 <= i < link.len() ==> !crate::text::is_white_space(#[trigger] link[i])
    &&& match after_scheme(link) {
        Some(rest) => host_part(rest).len() > 0,
        None => false,
    }
}

/// Checks a source link.
pub fn is_valid_source_url(link: &str) -> (r: bool)
    ensures
        r == valid_source_url(link@),
{
    let cs = chars_of(link);
    let mut i: usize = 0;
    while i < cs.len()
        invariant
            cs@ == link@,
            i <= cs@.len(),
            forall|j: int| 0 <= j < i ==> !crate::text::is_white_space(#[trigger] cs@[j]),
        decreases cs@.len() - i,
    {
        if crate::text::is_whitespace_char(cs[i]) {
            return false;
        }
        i = i + 1;
    }
    let start: usize = if crate::text::has_prefix(cs.as_slice(), "http://") {
        proof {
            reveal_strlit("http://");
        }
        7
    } else if crate::text::has_prefix(cs.as_slice(), "https://") {
        proof {
            reveal_strlit("https://");
        }
        8
    } else {
        return false;
    };
    proof {
        reveal_strlit("http://");
        reveal_strlit("https://");
        assert(after_scheme(link@) == Some(link@.subrange(start as int, link@.len() as int)));
    }
    if start == cs.len() {
        return false;
    }
    let c = cs[start];
    proof {
        let rest = link@.subrange(start as int, link@.len() as int);
        assert(rest[0] == c);
        if !(c == '/' || c == '?' || c == '#') {
            assert(host_part(rest).len() > 0);
        }
    }
    !(c == '/' || c == '?' || c == '#')
}

/// The lines of a text: its pieces between line feeds.
pub open spec fn text_lines(text: Seq<char>) -> Seq<Seq<char>> {
    split_on(text, '\n')
}

/// The trimmed, non-empty lines, in their order.
pub open spec fn nonblank_trimmed(lines: Seq<Seq<char>>) -> Seq<Seq<char>>
    decreases lines.len(),
{
    if lines.len() == 0 {
        seq![]
    } else {
        let rest = nonblank_trimmed(lines.drop_last());
        let t = trim(lines.last());
        if t.len() > 0 {
            rest.push(t)
        } else {
            rest
        }
    }
}

/// The links of a text: its lines trimmed, blank ones left out (what
/// `lines().map(str::trim).filter(non-empty)` gives; a carriage return
/// before a line feed is white space and trimmed away).
pub open spec fn links_of(text: Seq<char>) -> Seq<Seq<char>> {
    nonblank_trimmed(text_lines(text))
}

/// The views of a list of strings.
pub open spec fn string_views(v: Seq<String>) -> Seq<Seq<char>> {
    v.map_values(|s: String| s@)
}

/// The trimmed, non-empty lines of `text`.
pub fn parse_links(links_text: &str) -> (r: Vec<String>)
    ensures
        string_views(r@) == links_of(links_text@),
{
    let cs = chars_of(links_text);
    let lines = split_chars(cs.as_slice(), '\n');
    let ghost ls = text_lines(links_text@);
    let mut r: Vec<String> = Vec::new();
    let mut i: usize = 0;
    while i < lines.len()
        invariant
            cs@ == links_text@,
            ls == split_on(cs@, '\n'),
            lines@.len() == ls.len(),
            forall|j: int| 0 <= j < lines@.len() ==> #[trigger] lines@[j]@ == ls[j],
            i <= lines@.len(),
            string_views(r@) == nonblank_trimmed(ls.subrange(0, i as int)),
        decreases lines@.len() - i,
    {
        proof {
            assert(ls.subrange(0, i + 1).drop_last() =~= ls.subrange(0, i as int));
            assert(ls.subrange(0, i + 1).last() == lines@[i as int]@);
        }
        let t = trim_chars(lines[i].as_slice());
        if t.len() > 0 {
            let s = string_of(t.as_slice());
            r.push(s);
            proof {
                assert(string_views(r@) =~= nonblank_trimmed(ls.subrange(0, i as int)).push(t@));
            }
        }
        i = i + 1;
    }
    assert(ls.subrange(0, lines@.len() as int) =~= ls);
    r
}

/// The number of links in `text`.
pub fn count_links(links_text: &str) -> (r: usize)
    ensures
        r == links_of(links_text@).len(),
{
    parse_links(links_text).len()
}

/// What the editor reports about a draft, as counts over its lines.
pub struct DraftModel {
    pub non_empty: nat,
    pub blank: nat,
    pub duplicate: nat,
    pub invalid: nat,
    pub first_invalid: Option<Seq<char>>,
    /// The distinct valid links, in the order of their first occurrence.
    pub normalized: Seq<Seq<char>>,
}

/// Goes through the lines in order: a blank line is counted as blank; an
/// invalid link as invalid (the first one is remembered); a link seen before
/// as a duplicate; any other link is kept.
pub open spec fn draft_fold(lines: Seq<Seq<char>>) -> DraftModel
    decreases lines.len(),
{
    if lines.len() == 0 {
        DraftModel {
            non_empty: 0,
            blank: 0,
            duplicate: 0,
            invalid: 0,
            first_invalid: None,
            normalized: seq![],
        }
    } else {
        let st = draft_fold(lines.drop_last());
        let t = trim(lines.last());
        if t.len() == 0 {
            DraftModel { blank: st.blank + 1, ..st }
        } else if !valid_source_url(t) {
            DraftModel {
                non_empty: st.non_empty + 1,
                invalid: st.invalid + 1,
                first_invalid: if st.first_invalid is None {
                    Some(t)
                } else {
                    st.first_invalid
                },
                ..st
            }
        } else if st.normalized.contains(t) {
            DraftModel { non_empty: st.non_empty + 1, duplicate: st.duplicate + 1, ..st }
        } else {
            DraftModel { non_empty: st.non_empty + 1, normalized: st.normalized.push(t), ..st }
        }
    }
}

/// The lines of a draft: none for an empty text.
pub open spec fn draft_lines(text: Seq<char>) -> Seq<Seq<char>> {
    if text.len() == 0 {
        seq![]
    } else {
        split_on(text, '\n')
    }
}

/// Counts over the lines of a draft.
#[derive(Clone, Debug, PartialEq, Eq)]
pub struct DraftLinkStats {
    pub raw_line_count: usize,
    pub non_empty_count: usize,
    pub normalized_count: usize,
    pub blank_count: usize,
    pub duplicate_count: usize,
    pub invalid_count: usize,
    pub first_invalid: Option<String>,
    pub normalized_preview: Vec<String>,
}

fn contains_chars(seen: &Vec<Vec<char>>, t: &[char]) -> (r: bool)
    ensures
        r == seen@.map_values(|v: Vec<char>| v@).contains(t@),
{
    let ghost sv = seen@.map_values(|v: Vec<char>| v@);
    let mut i: usize = 0;
    while i < seen.len()
        invariant
            sv == seen@.map_values(|v: Vec<char>| v@),
            i <= seen@.len(),
            forall|j: int| 0 <= j < i ==> sv[j] != t@,
        decreases seen@.len() - i,
    {
        if chars_eq(seen[i].as_slice(), t) {
            assert(sv[i as int] == t@);
            return true;
        }
        i = i + 1;
    }
    false
}

/// Analyses a draft: counts its lines, and previews up to `preview_limit`
/// of the links that saving would keep.
pub fn analyze_links(links_text: &str, preview_limit: usize) -> (r: DraftLinkStats)
    ensures
        ({
            let m = draft_fold(draft_lines(links_text@));
            &&& r.raw_line_count == draft_lines(links_text@).len()
            &&& r.non_empty_count == m.non_empty
            &&& r.normalized_count == m.normalized.len()
            &&& r.blank_count == m.blank
            &&& r.duplicate_count == m.duplicate
            &&& r.invalid_count == m.invalid
            &&& match r.first_invalid {
                Some(s) => m.first_invalid == Some(s@),
                None => m.first_invalid is None,
            }
            &&& string_views(r.normalized_preview@) == m.normalized.take(
                if m.normalized.len() < preview_limit {
                    m.normalized.len() as int
                } else {
                    preview_limit as int
                },
            )
        }),
{
    let cs = chars_of(links_text);
    let lines: Vec<Vec<char>> = if cs.len() == 0 {
        Vec::new()
    } else {
        split_chars(cs.as_slice(), '\n')
    };
    let ghost ls = draft_lines(links_text@);
    assert(lines@.len() == ls.len());
    let mut seen: Vec<Vec<char>> = Vec::new();
    let mut non_empty_count: usize = 0;
    let mut blank_count: usize = 0;
    let mut duplicate_count: usize = 0;
    let mut invalid_count: usize = 0;
    let mut first_invalid: Option<String> = None;
    let mut preview: Vec<String> = Vec::new();
    let mut i: usize = 0;
    while i < lines.len()
        invariant
            lines@.len() == ls.len(),
            forall|j: int| 0 <= j < lines@.len() ==> #[trigger] lines@[j]@ == ls[j],
            i <= lines@.len(),
            ({
                let m = draft_fold(ls.subrange(0, i as int));
                &&& non_empty_count == m.non_empty
                &&& blank_count == m.blank
                &&& duplicate_count == m.duplicate
                &&& invalid_count == m.invalid
                &&& match first_invalid {
                    Some(s) => m.first_invalid == Some(s@),
                    None => m.first_invalid is None,
                }
                &&& seen@.map_values(|v: Vec<char>| v@) == m.normalized
                &&& string_views(preview@) == m.normalized.take(
                    if m.normalized.len() < preview_limit {
                        m.normalized.len() as int
                    } else {
                        preview_limit as int
                    },
                )
                &&& m.non_empty + m.blank == i
                &&& m.invalid + m.duplicate + m.normalized.len() == m.non_empty
            }),
        decreases lines@.len() - i,
    {
        let ghost before = draft_fold(ls.subrange(0, i as int));
        proof {
            assert(ls.subrange(0, i + 1).drop_last() =~= ls.subrange(0, i as int));
            assert(ls.subrange(0, i + 1).last() == lines@[i as int]@);
        }
        let t = trim_chars(lines[i].as_slice());
        if t.len() == 0 {
            blank_count = blank_count + 1;
        } else {
            non_empty_count = non_empty_count + 1;
            let ts = string_of(t.as_slice());
            if !is_valid_source_url(ts.as_str()) {
                invalid_count = invalid_count + 1;
                if first_invalid.is_none() {
                    first_invalid = Some(ts);
                }
            } else if contains_chars(&seen, t.as_slice()) {
                duplicate_count = duplicate_count + 1;
            } else {
                proof {
                    assert(seen@.push(t).map_values(|v: Vec<char>| v@) =~= seen@.map_values(
                        |v: Vec<char>| v@,
                    ).push(t@));
                }
                seen.push(t);
                if preview.len() < preview_limit {
                    proof {
                        assert(string_views(preview@.push(ts)) =~= string_views(preview@).push(
                            ts@,
                        ));
                        let n = before.normalized.push(t@);
                        assert(n.take(preview@.len() as int + 1) =~= before.normalized.take(
                            preview@.len() as int,
                        ).push(t@));
                    }
                    preview.push(ts);
                } else {
                    proof {
                        let n = before.normalized.push(t@);
                        assert(string_views(preview@).len() == preview@.len());
                        assert(before.normalized.len() >= preview_limit);
                        assert(n.take(preview_limit as int) =~= before.normalized.take(
                            preview_limit as int,
                        ));
                    }
                }
            }
        }
        i = i + 1;
    }
    assert(ls.subrange(0, lines@.len() as int) =~= ls);
    DraftLinkStats {
        raw_line_count: lines.len(),
        non_empty_count,
        normalized_count: seen.len(),
        blank_count,
        duplicate_count,
        invalid_count,
        first_invalid,
        normalized_preview: preview,
    }
}

/// Every line of a draft is blank or not, and every non-blank line is
/// invalid, a duplicate, or kept; the kept links are distinct and valid.
pub proof fn law_draft_counts_balance(lines: Seq<Seq<char>>)
    ensures
        draft_fold(lines).blank + draft_fold(lines).non_empty == lines.len(),
        draft_fold(lines).non_empty == draft_fold(lines).invalid + draft_fold(lines).duplicate
            + draft_fold(lines).normalized.len(),
        draft_fold(lines).normalized.no_duplicates(),
        forall|i: int|
            0 <= i < draft_fold(lines).normalized.len() ==> valid_source_url(
                #[trigger] draft_fold(lines).normalized[i],
            ),
    decreases lines.len(),
{
    if lines.len() > 0 {
        law_draft_counts_balance(lines.drop_last());
        let st = draft_fold(lines.drop_last());
        let t = trim(lines.last());
        if t.len() > 0 && valid_source_url(t) && !st.normalized.contains(t) {
            let n = st.normalized.push(t);
            assert forall|a: int, b: int| 0 <= a < n.len() && 0 <= b < n.len() && a != b implies n[a]
                != n[b] by {
                if a == st.normalized.len() as int {
                    assert(st.normalized[b] != t);
                } else if b == st.normalized.len() as int {
                    assert(st.normalized[a] != t);
                }
            }
            assert forall|i: int| 0 <= i < n.len() implies valid_source_url(#[trigger] n[i]) by {
                if i < st.normalized.len() {
                    assert(n[i] == st.normalized[i]);
                }
            }
        }
    }
}

/// Every link that `parse_links` gives is trimmed and not empty.
pub proof fn law_links_trimmed_nonblank(lines: Seq<Seq<char>>)
    ensures
        forall|i: int|
            0 <= i < nonblank_trimmed(lines).len() ==> #[trigger] nonblank_trimmed(lines)[i].len()
                > 0,
        nonblank_trimmed(lines).len() <= lines.len(),
    decreases lines.len(),
{
    if lines.len() > 0 {
        law_links_trimmed_nonblank(lines.drop_last());
        let rest = nonblank_trimmed(lines.drop_last());
        let t = trim(lines.last());
        if t.len() > 0 {
            assert forall|i: int| 0 <= i < rest.push(t).len() implies #[trigger] rest.push(t)[i].len()
                > 0 by {
                if i < rest.len() {
                    assert(rest.push(t)[i] == rest[i]);
                }
            }
        }
    }
}

proof fn lemma_fold_counts_links(lines: Seq<Seq<char>>)
    ensures
        draft_fold(lines).non_empty == nonblank_trimmed(lines).len(),
    decreases lines.len(),
{
    if lines.len() > 0 {
        lemma_fold_counts_links(lines.drop_last());
    }
}

/// The editor's count of non-blank lines is the number of links that
/// `count_links` gives for the same text.
pub proof fn law_draft_counts_links(text: Seq<char>)
    ensures
        draft_fold(draft_lines(text)).non_empty == links_of(text).len(),
{
    if text.len() == 0 {
        let ls = text_lines(text);
        assert(ls == seq![Seq::<char>::empty()]);
        assert(ls.drop_last() =~= Seq::<Seq<char>>::empty());
        assert(ls.last() == Seq::<char>::empty());
        assert(trim_start(Seq::<char>::empty()) == Seq::<char>::empty());
        assert(trim_end(Seq::<char>::empty()) == Seq::<char>::empty());
        assert(trim(ls.last()).len() == 0);
        assert(nonblank_trimmed(ls.drop_last()) =~= Seq::<Seq<char>>::empty());
        assert(nonblank_trimmed(ls).len() == 0);
        assert(draft_lines(text) =~= Seq::<Seq<char>>::empty());
    } else {
        lemma_fold_counts_links(text_lines(text));
    }
}

/// The links that are valid source links, in their order.
pub open spec fn valid_only(links: Seq<Seq<char>>) -> Seq<Seq<char>>
    decreases links.len(),
{
    if links.len() == 0 {
        seq![]
    } else if valid_source_url(links.last()) {
        valid_only(links.drop_last()).push(links.last())
    } else {
        valid_only(links.drop_last())
    }
}

/// The links that are not valid source links, in their order.
pub open spec fn invalid_only(links: Seq<Seq<char>>) -> Seq<Seq<char>>
    decreases links.len(),
{
    if links.len() == 0 {
        seq![]
    } else if !valid_source_url(links.last()) {
        invalid_only(links.drop_last()).push(links.last())
    } else {
        invalid_only(links.drop_last())
    }
}

/// The distinct texts of a sequence, each where it first occurs.
pub open spec fn distinct_in_order(s: Seq<Seq<char>>) -> Seq<Seq<char>>
    decreases s.len(),
{
    if s.len() == 0 {
        seq![]
    } else {
        let rest = distinct_in_order(s.drop_last());
        if rest.contains(s.last()) {
            rest
        } else {
            rest.push(s.last())
        }
    }
}

/// The distinct texts hold no text twice, and exactly the texts of the
/// sequence.
pub proof fn lemma_distinct_in_order(s: Seq<Seq<char>>)
    ensures
        distinct_in_order(s).no_duplicates(),
        distinct_in_order(s).to_set() == s.to_set(),
    decreases s.len(),
{
    if s.len() > 0 {
        lemma_distinct_in_order(s.drop_last());
        let rest = distinct_in_order(s.drop_last());
        let x = s.last();
        assert(s =~= s.drop_last().push(x));
        s.drop_last().lemma_push_to_set_commute(x);
        if rest.contains(x) {
            assert(rest.to_set().contains(x));
            assert(s.to_set() =~= s.drop_last().to_set().insert(x));
            assert(s.to_set() =~= rest.to_set());
        } else {
            rest.lemma_push_to_set_commute(x);
            let n = rest.push(x);
            assert forall|a: int, b: int| 0 <= a < n.len() && 0 <= b < n.len() && a != b implies n[a]
                != n[b] by {
                if a == rest.len() as int {
                    assert(n[b] == rest[b]);
                } else if b == rest.len() as int {
                    assert(n[a] == rest[a]);
                } else {
                    assert(n[a] == rest[a] && n[b] == rest[b]);
                }
            }
        }
    }
}

proof fn lemma_fold_by_links(lines: Seq<Seq<char>>)
    ensures
        draft_fold(lines).non_empty == nonblank_trimmed(lines).len(),
        draft_fold(lines).invalid == invalid_only(nonblank_trimmed(lines)).len(),
        draft_fold(lines).normalized == distinct_in_order(valid_only(nonblank_trimmed(lines))),
        draft_fold(lines).first_invalid == (if invalid_only(nonblank_trimmed(lines)).len() > 0 {
            Some(invalid_only(nonblank_trimmed(lines))[0])
        } else {
            None
        }),
    decreases lines.len(),
{
    if lines.len() > 0 {
        lemma_fold_by_links(lines.drop_last());
        let rest = nonblank_trimmed(lines.drop_last());
        let t = trim(lines.last());
        if t.len() > 0 {
            let n = rest.push(t);
            assert(n.drop_last() =~= rest);
            assert(n.last() == t);
            if valid_source_url(t) {
                assert(valid_only(n) == valid_only(rest).push(t));
                assert(valid_only(rest).push(t).drop_last() =~= valid_only(rest));
                assert(invalid_only(n) == invalid_only(rest));
            } else {
                assert(invalid_only(n) == invalid_only(rest).push(t));
                assert(valid_only(n) == valid_only(rest));
                if invalid_only(rest).len() > 0 {
                    assert(invalid_only(rest).push(t)[0] == invalid_only(rest)[0]);
                }
            }
        }
    }
}

/// What the editor reports of a draft, in terms of its links (its trimmed,
/// non-blank lines): it counts them all; the invalid ones are counted and
/// the first of them named; the kept links are the distinct valid ones, each
/// where it first occurs, so their number is the number of distinct valid
/// links.
pub proof fn law_draft_report(text: Seq<char>)
    ensures
        draft_fold(draft_lines(text)).non_empty == links_of(text).len(),
        draft_fold(draft_lines(text)).invalid == invalid_only(links_of(text)).len(),
        draft_fold(draft_lines(text)).normalized == distinct_in_order(valid_only(links_of(text))),
        draft_fold(draft_lines(text)).normalized.no_duplicates(),
        draft_fold(draft_lines(text)).normalized.to_set() == valid_only(links_of(text)).to_set(),
        draft_fold(draft_lines(text)).normalized.len() == valid_only(links_of(text)).to_set().len(),
        draft_fold(draft_lines(text)).first_invalid == (if invalid_only(links_of(text)).len() > 0 {
            Some(invalid_only(links_of(text))[0])
        } else {
            None
        }),
{
    law_draft_counts_links(text);
    if text.len() == 0 {
        assert(draft_lines(text) =~= Seq::<Seq<char>>::empty());
        assert(links_of(text).len() == 0);
        assert(links_of(text) =~= Seq::<Seq<char>>::empty());
        assert(draft_fold(draft_lines(text)).normalized =~= Seq::<Seq<char>>::empty());
    } else {
        lemma_fold_by_links(text_lines(text));
    }
    let v = valid_only(links_of(text));
    lemma_distinct_in_order(v);
    distinct_in_order(v).unique_seq_to_set();
}

} // verus!
