//! The order in which the console lists fetch diagnostics: errors first,
//! then blocked, pending and successful sources, the most recently fetched
//! first, then by URL.  The sort is stable.
use vstd::prelude::*;
use crate::shared::LinkDiagnostic;
use crate::text::chars_of;

verus! {

/// `a` is no later than `b` in the lexicographic order of texts (`str`'s
/// order: UTF-8 keeps the order of code points).
pub open spec fn text_le(a: Seq<char>, b: Seq<char>) -> bool
    decreases a.len(),
{
    if a.len() == 0 {
        true
    } else if b.len() == 0 {
        false
    } else if a[0] != b[0] {
        a[0] < b[0]
    } else {
        text_le(a.drop_first(), b.drop_first())
    }
}

pub proof fn lemma_text_le_total(a: Seq<char>, b: Seq<char>)
    ensures
        text_le(a, b) || text_le(b, a),
    decreases a.len(),
{
    if a.len() > 0 && b.len() > 0 && a[0] == b[0] {
        lemma_text_le_total(a.drop_first(), b.drop_first());
    }
}

pub proof fn lemma_text_le_antisymmetric(a: Seq<char>, b: Seq<char>)
    requires
        text_le(a, b),
        text_le(b, a),
    ensures
        a == b,
    decreases a.len(),
{
    if a.len() > 0 && b.len() > 0 {
        lemma_text_le_antisymmetric(a.drop_first(), b.drop_first());
        assert(a =~= seq![a[0]] + a.drop_first());
        assert(b =~= seq![b[0]] + b.drop_first());
    }
}

pub proof fn lemma_text_le_transitive(a: Seq<char>, b: Seq<char>, c: Seq<char>)
    requires
        text_le(a, b),
        text_le(b, c),
    ensures
        text_le(a, c),
    decreases a.len(),
{
    if a.len() > 0 && b.len() > 0 && c.len() > 0 && a[0] == b[0] && b[0] == c[0] {
        lemma_text_le_transitive(a.drop_first(), b.drop_first(), c.drop_first());
    }
}

/// Compares two texts in the lexicographic order.
pub fn chars_le(a: &[char], b: &[char]) -> (r: bool)
    ensures
        r == text_le(a@, b@),
{
    let n = a.len();
    let m = b.len();
    let mut i: usize = 0;
    assert(a@.subrange(0, n as int) =~= a@);
    assert(b@.subrange(0, m as int) =~= b@);
    assert(a@.subrange(0, 0) =~= b@.subrange(0, 0));
    while i < n && i < m
        invariant
            n == a@.len(),
            m == b@.len(),
            i <= n,
            i <= m,
            a@.subrange(0, i as int) == b@.subrange(0, i as int),
            text_le(a@, b@) == text_le(
                a@.subrange(i as int, n as int),
                b@.subrange(i as int, m as int),
            ),
        decreases n - i,
    {
        let ghost ra = a@.subrange(i as int, n as int);
        let ghost rb = b@.subrange(i as int, m as int);
        assert(ra[0] == a@[i as int]);
        assert(rb[0] == b@[i as int]);
        if a[i] != b[i] {
            return a[i] < b[i];
        }
        assert(ra.drop_first() =~= a@.subrange(i + 1, n as int));
        assert(rb.drop_first() =~= b@.subrange(i + 1, m as int));
        assert(a@.subrange(0, i + 1) =~= a@.subrange(0, i as int).push(a@[i as int]));
        assert(b@.subrange(0, i + 1) =~= b@.subrange(0, i as int).push(b@[i as int]));
        i = i + 1;
    }
    i == n
}

/// How urgent a diagnostic status is: errors, blocked, pending, success,
/// anything else.
pub open spec fn priority_of(status: Seq<char>) -> nat {
    if status == "error"@ {
        0
    } else if status == "blocked"@ {
        1
    } else if status == "pending"@ {
        2
    } else if status == "success"@ {
        3
    } else {
        4
    }
}

/// How urgent a diagnostic status is.
pub fn diagnostic_priority(status: &str) -> (r: u8)
    ensures
        r == priority_of(status@),
{
    let s = chars_of(status);
    if crate::text::is_lit(s.as_slice(), "error") {
        0
    } else if crate::text::is_lit(s.as_slice(), "blocked") {
        1
    } else if crate::text::is_lit(s.as_slice(), "pending") {
        2
    } else if crate::text::is_lit(s.as_slice(), "success") {
        3
    } else {
        4
    }
}

/// `a` was fetched no earlier than `b` (never fetched counts as earliest).
pub open spec fn fetched_no_earlier(a: Option<i64>, b: Option<i64>) -> bool {
    match (a, b) {
        (_, None) => true,
        (None, Some(_)) => false,
        (Some(x), Some(y)) => x >= y,
    }
}

/// `a` may be listed before `b`: it is more urgent, or as urgent and
/// fetched later, or fetched at the same time and its URL comes first.
pub open spec fn listed_before(a: LinkDiagnostic, b: LinkDiagnostic) -> bool {
    let pa = priority_of(a.status@);
    let pb = priority_of(b.status@);
    if pa != pb {
        pa < pb
    } else if a.fetched_at != b.fetched_at {
        fetched_no_earlier(a.fetched_at, b.fetched_at)
    } else {
        text_le(a.url@, b.url@)
    }
}

/// `a` and `b` tie in the listing order.
pub open spec fn same_rank(a: LinkDiagnostic, b: LinkDiagnostic) -> bool {
    listed_before(a, b) && listed_before(b, a)
}

pub proof fn lemma_listed_total(a: LinkDiagnostic, b: LinkDiagnostic)
    ensures
        listed_before(a, b) || listed_before(b, a),
{
    lemma_text_le_total(a.url@, b.url@);
}

pub proof fn lemma_listed_transitive(a: LinkDiagnostic, b: LinkDiagnostic, c: LinkDiagnostic)
    requires
        listed_before(a, b),
        listed_before(b, c),
    ensures
        listed_before(a, c),
{
    if priority_of(a.status@) == priority_of(b.status@) && priority_of(b.status@) == priority_of(
        c.status@,
    ) {
        if a.fetched_at == b.fetched_at && b.fetched_at == c.fetched_at {
            lemma_text_le_transitive(a.url@, b.url@, c.url@);
        }
    }
}

/// Compares two diagnostics in the listing order.
pub fn listed_no_later(a: &LinkDiagnostic, b: &LinkDiagnostic) -> (r: bool)
    ensures
        r == listed_before(*a, *b),
{
    let pa = diagnostic_priority(a.status.as_str());
    let pb = diagnostic_priority(b.status.as_str());
    if pa != pb {
        return pa < pb;
    }
    let same_time = match (a.fetched_at, b.fetched_at) {
        (Some(x), Some(y)) => x == y,
        (None, None) => true,
        _ => false,
    };
    if !same_time {
        return match (a.fetched_at, b.fetched_at) {
            (_, None) => true,
            (None, Some(_)) => false,
            (Some(x), Some(y)) => x >= y,
        };
    }
    let ua = chars_of(a.url.as_str());
    let ub = chars_of(b.url.as_str());
    chars_le(ua.as_slice(), ub.as_slice())
}

/// `x` put into `s` after the last element it may follow, scanning from
/// the end.
pub open spec fn insert_listed(s: Seq<LinkDiagnostic>, x: LinkDiagnostic) -> Seq<LinkDiagnostic>
    decreases s.len(),
{
    if s.len() == 0 {
        seq![x]
    } else if listed_before(s.last(), x) {
        s.push(x)
    } else {
        insert_listed(s.drop_last(), x).push(s.last())
    }
}

/// The diagnostics in listing order, equal ones kept in their order.
pub open spec fn listing(s: Seq<LinkDiagnostic>) -> Seq<LinkDiagnostic>
    decreases s.len(),
{
    if s.len() == 0 {
        seq![]
    } else {
        insert_listed(listing(s.drop_last()), s.last())
    }
}

/// The elements of `s` that tie with `d`, in order.
pub open spec fn ties(s: Seq<LinkDiagnostic>, d: LinkDiagnostic) -> Seq<LinkDiagnostic>
    decreases s.len(),
{
    if s.len() == 0 {
        seq![]
    } else if same_rank(s.last(), d) {
        ties(s.drop_last(), d).push(s.last())
    } else {
        ties(s.drop_last(), d)
    }
}

/// `s` is in listing order.
pub open spec fn in_listing_order(s: Seq<LinkDiagnostic>) -> bool {
    forall|i: int, j: int| 0 <= i < j < s.len() ==> listed_before(#[trigger] s[i], #[trigger] s[j])
}

proof fn lemma_insert_at(s: Seq<LinkDiagnostic>, x: LinkDiagnostic, p: int)
    requires
        0 <= p <= s.len(),
        forall|j: int| p <= j < s.len() ==> !listed_before(#[trigger] s[j], x),
        p > 0 ==> listed_before(s[p - 1], x),
    ensures
        insert_listed(s, x) == s.subrange(0, p).push(x) + s.subrange(p, s.len() as int),
    decreases s.len() - p,
{
    if s.len() == 0 {
        assert(s.subrange(0, p).push(x) + s.subrange(p, s.len() as int) =~= seq![x]);
    } else if p == s.len() {
        assert(s.subrange(0, p) =~= s);
        assert(s.subrange(0, p).push(x) + s.subrange(p, s.len() as int) =~= s.push(x));
    } else {
        let t = s.drop_last();
        lemma_insert_at(t, x, p);
        assert(insert_listed(s, x) == insert_listed(t, x).push(s.last()));
        assert(t.subrange(0, p) =~= s.subrange(0, p));
        assert(t.subrange(0, p).push(x) + t.subrange(p, t.len() as int) + seq![s.last()]
            =~= s.subrange(0, p).push(x) + s.subrange(p, s.len() as int));
    }
}

proof fn lemma_insert_facts(s: Seq<LinkDiagnostic>, x: LinkDiagnostic, d: LinkDiagnostic)
    requires
        in_listing_order(s),
    ensures
        in_listing_order(insert_listed(s, x)),
        insert_listed(s, x).to_multiset() == s.to_multiset().insert(x),
        ties(insert_listed(s, x), d) == (if same_rank(x, d) {
            ties(s, d).push(x)
        } else {
            ties(s, d)
        }),
    decreases s.len(),
{
    broadcast use vstd::seq_lib::group_to_multiset_ensures;

    if s.len() == 0 {
        assert(seq![x].drop_last() =~= Seq::<LinkDiagnostic>::empty());
        assert(ties(seq![x], d) == (if same_rank(x, d) {
            ties(Seq::<LinkDiagnostic>::empty(), d).push(x)
        } else {
            ties(Seq::<LinkDiagnostic>::empty(), d)
        }));
    } else if listed_before(s.last(), x) {
        assert(s.push(x).drop_last() =~= s);
        assert forall|i: int, j: int| 0 <= i < j < s.push(x).len() implies listed_before(
            #[trigger] s.push(x)[i],
            #[trigger] s.push(x)[j],
        ) by {
            if j == s.len() {
                if i < s.len() - 1 {
                    lemma_listed_transitive(s[i], s.last(), x);
                }
            }
        }
    } else {
        let t = s.drop_last();
        let last = s.last();
        assert(in_listing_order(t));
        lemma_insert_facts(t, x, d);
        let it = insert_listed(t, x);
        assert(insert_listed(s, x) == it.push(last));
        assert(it.push(last).drop_last() =~= it);
        assert(s =~= t.push(last));
        // every element of `t` and `x` may precede `last`
        assert forall|i: int| 0 <= i < it.len() implies listed_before(#[trigger] it[i], last) by {
            let m = it.to_multiset();
            assert(m.count(it[i]) > 0);
            assert(t.to_multiset().insert(x).count(it[i]) > 0);
            if it[i] != x {
                assert(t.to_multiset().count(it[i]) > 0);
                assert(t.contains(it[i]));
                let k = choose|k: int| 0 <= k < t.len() && t[k] == it[i];
                assert(s[k] == t[k]);
                assert(listed_before(s[k], s[s.len() - 1]));
            } else {
                lemma_listed_total(last, x);
            }
        }
        assert forall|i: int, j: int| 0 <= i < j < it.push(last).len() implies listed_before(
            #[trigger] it.push(last)[i],
            #[trigger] it.push(last)[j],
        ) by {
            if j == it.len() {
                assert(it.push(last)[i] == it[i]);
            } else {
                assert(it.push(last)[i] == it[i]);
                assert(it.push(last)[j] == it[j]);
            }
        }
        // a tie of `x` cannot tie `last`, which `x` may not follow
        if same_rank(x, d) && same_rank(last, d) {
            lemma_listed_transitive(last, d, x);
        }
    }
}

/// The listing is ordered, holds the same diagnostics, and keeps tied
/// diagnostics in their given order.
pub proof fn lemma_listing(s: Seq<LinkDiagnostic>, d: LinkDiagnostic)
    ensures
        in_listing_order(listing(s)),
        listing(s).to_multiset() == s.to_multiset(),
        ties(listing(s), d) == ties(s, d),
    decreases s.len(),
{
    broadcast use vstd::seq_lib::group_to_multiset_ensures;

    if s.len() > 0 {
        lemma_listing(s.drop_last(), d);
        lemma_insert_facts(listing(s.drop_last()), s.last(), d);
        assert(s =~= s.drop_last().push(s.last()));
    }
}

/// Sorts diagnostics for display: errors, blocked, pending, then
/// successful sources; within each, the most recently fetched first, then
/// by URL.  Diagnostics that tie keep their order.
pub fn sorted_diagnostics(diagnostics: Vec<LinkDiagnostic>) -> (r: Vec<LinkDiagnostic>)
    ensures
        r@ == listing(diagnostics@),
        in_listing_order(r@),
        r@.to_multiset() == diagnostics@.to_multiset(),
        forall|d: LinkDiagnostic| ties(r@, d) == #[trigger] ties(diagnostics@, d),
{
    let ghost input = diagnostics@;
    let mut rest = diagnostics;
    let mut out: Vec<LinkDiagnostic> = Vec::new();
    let ghost mut taken: int = 0;
    while rest.len() > 0
        invariant
            0 <= taken <= input.len(),
            rest@ == input.subrange(taken, input.len() as int),
            out@ == listing(input.subrange(0, taken)),
            in_listing_order(out@),
        decreases rest@.len(),
    {
        let x = rest.remove(0);
        proof {
            assert(x == input[taken]);
            assert(input.subrange(0, taken + 1).drop_last() =~= input.subrange(0, taken));
            assert(input.subrange(0, taken + 1).last() == x);
            lemma_insert_facts(out@, x, x);
        }
        let mut p = out.len();
        while p > 0 && !listed_no_later(&out[p - 1], &x)
            invariant
                p <= out@.len(),
                forall|j: int| p <= j < out@.len() ==> !listed_before(#[trigger] out@[j], x),
            decreases p,
        {
            p = p - 1;
        }
        proof {
            lemma_insert_at(out@, x, p as int);
        }
        let ghost before = out@;
        out.insert(p, x);
        proof {
            assert(out@ =~= before.subrange(0, p as int).push(x) + before.subrange(
                p as int,
                before.len() as int,
            ));
            taken = taken + 1;
            assert(rest@ =~= input.subrange(taken, input.len() as int));
        }
    }
    proof {
        assert(input.subrange(0, taken) =~= input);
        assert forall|d: LinkDiagnostic| ties(out@, d) == #[trigger] ties(input, d) by {
            lemma_listing(input, d);
        }
        lemma_listing(input, input[0]);
    }
    if out.len() == 0 {
        proof {
            assert(input.len() == 0);
        }
    }
    out
}

} // verus!
