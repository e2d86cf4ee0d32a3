//! What the console's diagnostics panel shows of a subscription group's
//! fetch diagnostics: filters, counts, the summary, and each card.
use vstd::prelude::*;
use crate::messages::{detail_text, translate_diagnostic_detail};
use crate::ordering::{listing, sorted_diagnostics};
use crate::shared::{LinkDiagnostic, UserDiagnosticsResponse};
use crate::text::{chars_of, decimal, is_lit, push_decimal, push_lit};
use crate::timestamps::{format_timestamp, timestamp_text};

verus! {

/// A status that asks for attention: an error, a blocked or a pending fetch.
pub open spec fn attention_status(status: Seq<char>) -> bool {
    status == "error"@ || status == "blocked"@ || status == "pending"@
}

/// Whether a status asks for attention.
pub fn is_attention_status(status: &str) -> (r: bool)
    ensures
        r == attention_status(status@),
{
    let s = chars_of(status);
    is_lit(s.as_slice(), "error") || is_lit(s.as_slice(), "blocked") || is_lit(
        s.as_slice(),
        "pending",
    )
}

/// Which diagnostics the panel lists.
#[derive(Clone, Copy, Debug, PartialEq, Eq, Structural)]
pub enum DiagnosticFilter {
    All,
    Attention,
    Error,
    Blocked,
    Pending,
    Success,
}

impl DiagnosticFilter {
    /// The filters in the order the panel offers them.
    pub fn all() -> (r: [DiagnosticFilter; 6])
        ensures
            r@ == seq![
                DiagnosticFilter::All,
                DiagnosticFilter::Attention,
                DiagnosticFilter::Error,
                DiagnosticFilter::Blocked,
                DiagnosticFilter::Pending,
                DiagnosticFilter::Success,
            ],
    {
        [
            DiagnosticFilter::All,
            DiagnosticFilter::Attention,
            DiagnosticFilter::Error,
            DiagnosticFilter::Blocked,
            DiagnosticFilter::Pending,
            DiagnosticFilter::Success,
        ]
    }

    /// The filter's label.
    pub fn label(self) -> (r: &'static str)
        ensures
            r@ == filter_label(self),
    {
        match self {
            DiagnosticFilter::All => "全部",
            DiagnosticFilter::Attention => "需关注",
            DiagnosticFilter::Error => "错误",
            DiagnosticFilter::Blocked => "已拦截",
            DiagnosticFilter::Pending => "待处理",
            DiagnosticFilter::Success => "成功",
        }
    }

    /// The filter button's test id.
    pub fn test_id(self) -> (r: &'static str)
        ensures
            r@ == (match self {
                DiagnosticFilter::All => "diagnostic-filter-all"@,
                DiagnosticFilter::Attention => "diagnostic-filter-attention"@,
                DiagnosticFilter::Error => "diagnostic-filter-error"@,
                DiagnosticFilter::Blocked => "diagnostic-filter-blocked"@,
                DiagnosticFilter::Pending => "diagnostic-filter-pending"@,
                DiagnosticFilter::Success => "diagnostic-filter-success"@,
            }),
    {
        match self {
            DiagnosticFilter::All => "diagnostic-filter-all",
            DiagnosticFilter::Attention => "diagnostic-filter-attention",
            DiagnosticFilter::Error => "diagnostic-filter-error",
            DiagnosticFilter::Blocked => "diagnostic-filter-blocked",
            DiagnosticFilter::Pending => "diagnostic-filter-pending",
            DiagnosticFilter::Success => "diagnostic-filter-success",
        }
    }
}

/// A filter's label.
pub open spec fn filter_label(f: DiagnosticFilter) -> Seq<char> {
    match f {
        DiagnosticFilter::All => "全部"@,
        DiagnosticFilter::Attention => "需关注"@,
        DiagnosticFilter::Error => "错误"@,
        DiagnosticFilter::Blocked => "已拦截"@,
        DiagnosticFilter::Pending => "待处理"@,
        DiagnosticFilter::Success => "成功"@,
    }
}

/// The diagnostics with status `status` that a filter lists.
pub open spec fn admits(f: DiagnosticFilter, status: Seq<char>) -> bool {
    match f {
        DiagnosticFilter::All => true,
        DiagnosticFilter::Attention => attention_status(status),
        DiagnosticFilter::Error => status == "error"@,
        DiagnosticFilter::Blocked => status == "blocked"@,
        DiagnosticFilter::Pending => status == "pending"@,
        DiagnosticFilter::Success => status == "success"@,
    }
}

/// Whether a filter lists a diagnostic.
pub fn matches_filter(filter: DiagnosticFilter, diagnostic: &LinkDiagnostic) -> (r: bool)
    ensures
        r == admits(filter, diagnostic.status@),
{
    let s = chars_of(diagnostic.status.as_str());
    match filter {
        DiagnosticFilter::All => true,
        DiagnosticFilter::Attention => is_attention_status(diagnostic.status.as_str()),
        DiagnosticFilter::Error => is_lit(s.as_slice(), "error"),
        DiagnosticFilter::Blocked => is_lit(s.as_slice(), "blocked"),
        DiagnosticFilter::Pending => is_lit(s.as_slice(), "pending"),
        DiagnosticFilter::Success => is_lit(s.as_slice(), "success"),
    }
}

/// The diagnostics of `s` that a filter lists, in order.
pub open spec fn admitted(s: Seq<LinkDiagnostic>, f: DiagnosticFilter) -> Seq<LinkDiagnostic>
    decreases s.len(),
{
    if s.len() == 0 {
        seq![]
    } else if admits(f, s.last().status@) {
        admitted(s.drop_last(), f).push(s.last())
    } else {
        admitted(s.drop_last(), f)
    }
}

/// A copy of a diagnostic.
pub fn copy_diagnostic(d: &LinkDiagnostic) -> (r: LinkDiagnostic)
    ensures
        r == *d,
{
    LinkDiagnostic {
        url: d.url.clone(),
        status: d.status.clone(),
        detail: match &d.detail {
            Some(t) => Some(t.clone()),
            None => None,
        },
        http_status: d.http_status,
        content_type: match &d.content_type {
            Some(t) => Some(t.clone()),
            None => None,
        },
        body_bytes: d.body_bytes,
        redirect_count: d.redirect_count,
        is_html: d.is_html,
        fetched_at: d.fetched_at,
    }
}

/// The diagnostics a filter lists, in order.
pub fn filtered_diagnostics(diagnostics: &[LinkDiagnostic], filter: DiagnosticFilter) -> (r: Vec<
    LinkDiagnostic,
>)
    ensures
        r@ == admitted(diagnostics@, filter),
{
    let n = diagnostics.len();
    let mut r: Vec<LinkDiagnostic> = Vec::new();
    let mut i: usize = 0;
    while i < n
        invariant
            n == diagnostics@.len(),
            i <= n,
            r@ == admitted(diagnostics@.subrange(0, i as int), filter),
        decreases n - i,
    {
        proof {
            let t = diagnostics@.subrange(0, i + 1);
            assert(t.drop_last() =~= diagnostics@.subrange(0, i as int));
            assert(t.last() == diagnostics@[i as int]);
        }
        if matches_filter(filter, &diagnostics[i]) {
            r.push(copy_diagnostic(&diagnostics[i]));
        }
        i = i + 1;
    }
    assert(diagnostics@.subrange(0, n as int) =~= diagnostics@);
    r
}

/// How many diagnostics a filter lists.
pub fn filter_count(diagnostics: &[LinkDiagnostic], filter: DiagnosticFilter) -> (r: usize)
    ensures
        r == admitted(diagnostics@, filter).len(),
{
    let n = diagnostics.len();
    let mut c: usize = 0;
    let mut i: usize = 0;
    while i < n
        invariant
            n == diagnostics@.len(),
            i <= n,
            c == admitted(diagnostics@.subrange(0, i as int), filter).len(),
            c <= i,
        decreases n - i,
    {
        proof {
            let t = diagnostics@.subrange(0, i + 1);
            assert(t.drop_last() =~= diagnostics@.subrange(0, i as int));
            assert(t.last() == diagnostics@[i as int]);
        }
        if matches_filter(filter, &diagnostics[i]) {
            c = c + 1;
        }
        i = i + 1;
    }
    assert(diagnostics@.subrange(0, n as int) =~= diagnostics@);
    c
}

/// The headline of the diagnostics panel.
pub struct DiagnosticsSummary {
    pub headline: String,
    pub note: String,
    pub tone_class: &'static str,
}

/// The panel's summary: waiting for a first fetch, how many need
/// attention, or all successful.
pub open spec fn summary_is(
    r: DiagnosticsSummary,
    attention_count: nat,
    success_count: nat,
    total_count: nat,
    selected: DiagnosticFilter,
) -> bool {
    if total_count == 0 {
        &&& r.headline@ == "等待首次抓取"@
        &&& r.note@ == "保存源链接后，访问公开订阅或手动刷新缓存即可生成第一批诊断。"@
        &&& r.tone_class@ == "diagnostics-summary--cool"@
    } else if attention_count > 0 {
        &&& r.headline@ == decimal(attention_count) + " 条记录需要优先处理"@
        &&& r.note@ == "错误、已拦截和待处理项已经自动排到前面；当前筛选为“"@ + filter_label(selected)
            + "”。"@
        &&& r.tone_class@ == "diagnostics-summary--danger"@
    } else {
        &&& r.headline@ == decimal(success_count) + " 条记录已全部成功"@
        &&& r.note@ == "当前所有源都已成功抓取，下面的详情仅用于复查响应类型和更新时间。"@
        &&& r.tone_class@ == "diagnostics-summary--success"@
    }
}

/// Sums up the diagnostics for the panel's headline.
pub fn diagnostics_summary(
    attention_count: usize,
    success_count: usize,
    total_count: usize,
    selected_filter: DiagnosticFilter,
) -> (r: DiagnosticsSummary)
    ensures
        summary_is(r, attention_count as nat, success_count as nat, total_count as nat, selected_filter),
{
    if total_count == 0 {
        return DiagnosticsSummary {
            headline: "等待首次抓取".to_string(),
            note: "保存源链接后，访问公开订阅或手动刷新缓存即可生成第一批诊断。".to_string(),
            tone_class: "diagnostics-summary--cool",
        };
    }
    if attention_count > 0 {
        let mut headline = String::new();
        push_decimal(&mut headline, attention_count as u64);
        push_lit(&mut headline, " 条记录需要优先处理");
        let mut note = String::new();
        push_lit(&mut note, "错误、已拦截和待处理项已经自动排到前面；当前筛选为“");
        push_lit(&mut note, selected_filter.label());
        push_lit(&mut note, "”。");
        return DiagnosticsSummary { headline, note, tone_class: "diagnostics-summary--danger" };
    }
    let mut headline = String::new();
    push_decimal(&mut headline, success_count as u64);
    push_lit(&mut headline, " 条记录已全部成功");
    DiagnosticsSummary {
        headline,
        note: "当前所有源都已成功抓取，下面的详情仅用于复查响应类型和更新时间。".to_string(),
        tone_class: "diagnostics-summary--success",
    }
}

/// The class of a filter button.
pub fn diagnostic_filter_class(active: bool) -> (r: &'static str)
    ensures
        r@ == (if active {
            "button button--ghost diagnostic-filter diagnostic-filter--active"@
        } else {
            "button button--ghost diagnostic-filter"@
        }),
{
    if active {
        "button button--ghost diagnostic-filter diagnostic-filter--active"
    } else {
        "button button--ghost diagnostic-filter"
    }
}

/// The hint a card gives for a status that asks for attention.
pub open spec fn attention_hint_text(status: Seq<char>) -> Option<Seq<char>> {
    if status == "blocked"@ {
        Some("目标被安全策略拦截，没有进入公共输出。"@)
    } else if status == "pending"@ {
        Some("还没有完成抓取，等待首次访问或手动刷新缓存。"@)
    } else if status == "error"@ {
        Some("抓取失败，公共输出会跳过这条内容。"@)
    } else {
        None
    }
}

/// The hint a card gives for a status that asks for attention.
pub fn attention_count_hint(status: &str) -> (r: Option<&'static str>)
    ensures
        match r {
            Some(h) => attention_hint_text(status@) == Some(h@),
            None => attention_hint_text(status@) is None,
        },
{
    let s = chars_of(status);
    if is_lit(s.as_slice(), "blocked") {
        Some("目标被安全策略拦截，没有进入公共输出。")
    } else if is_lit(s.as_slice(), "pending") {
        Some("还没有完成抓取，等待首次访问或手动刷新缓存。")
    } else if is_lit(s.as_slice(), "error") {
        Some("抓取失败，公共输出会跳过这条内容。")
    } else {
        None
    }
}

/// The label of a status; anything unknown reads as an error.
pub open spec fn status_label_text(status: Seq<char>) -> Seq<char> {
    if status == "success"@ {
        "成功"@
    } else if status == "blocked"@ {
        "已拦截"@
    } else if status == "pending"@ {
        "待处理"@
    } else {
        "错误"@
    }
}

/// The label of a status.
pub fn diagnostic_status_label(status: &str) -> (r: &'static str)
    ensures
        r@ == status_label_text(status@),
{
    let s = chars_of(status);
    if is_lit(s.as_slice(), "success") {
        "成功"
    } else if is_lit(s.as_slice(), "blocked") {
        "已拦截"
    } else if is_lit(s.as_slice(), "pending") {
        "待处理"
    } else {
        "错误"
    }
}

/// The class of a status; anything unknown is styled as an error.
pub open spec fn status_class_text(status: Seq<char>) -> Seq<char> {
    if status == "success"@ {
        "diagnostic-status--success"@
    } else if status == "blocked"@ {
        "diagnostic-status--blocked"@
    } else if status == "pending"@ {
        "diagnostic-status--pending"@
    } else {
        "diagnostic-status--error"@
    }
}

/// The class of a status.
pub fn diagnostic_status_class(status: &str) -> (r: &'static str)
    ensures
        r@ == status_class_text(status@),
{
    let s = chars_of(status);
    if is_lit(s.as_slice(), "success") {
        "diagnostic-status--success"
    } else if is_lit(s.as_slice(), "blocked") {
        "diagnostic-status--blocked"
    } else if is_lit(s.as_slice(), "pending") {
        "diagnostic-status--pending"
    } else {
        "diagnostic-status--error"
    }
}

/// What a diagnostic's card shows.
pub struct DiagnosticCardView {
    pub card_class: String,
    pub status_class: &'static str,
    pub status_label: &'static str,
    pub detail: String,
    pub http_status: String,
    pub content_type: String,
    pub body_bytes: String,
    pub fetched_at: String,
    pub redirect_label: String,
    pub body_kind: &'static str,
    pub attention_hint: Option<&'static str>,
}

/// The content type shown, or that it is unknown.
pub open spec fn content_type_text(c: Option<String>) -> Seq<char> {
    match c {
        Some(t) => t@,
        None => "未知内容类型"@,
    }
}

/// The body size shown, or that it is unknown.
pub open spec fn body_size_text(b: Option<u64>) -> Seq<char> {
    match b {
        Some(n) => decimal(n as nat) + " 字节"@,
        None => "大小未知"@,
    }
}

fn content_type_label(c: &Option<String>) -> (r: String)
    ensures
        r@ == content_type_text(*c),
{
    match c {
        Some(t) => t.clone(),
        None => "未知内容类型".to_string(),
    }
}

fn body_size_label(b: Option<u64>) -> (r: String)
    ensures
        r@ == body_size_text(b),
{
    match b {
        Some(n) => {
            let mut s = String::new();
            push_decimal(&mut s, n);
            push_lit(&mut s, " 字节");
            s
        },
        None => "大小未知".to_string(),
    }
}

/// What the card of `d` shows.
pub open spec fn card_is(v: DiagnosticCardView, d: LinkDiagnostic) -> bool {
    &&& v.card_class@ == "diagnostic-card diagnostic-card--"@ + d.status@
    &&& v.status_class@ == status_class_text(d.status@)
    &&& v.status_label@ == status_label_text(d.status@)
    &&& v.detail@ == match d.detail {
        Some(t) => detail_text(t@),
        None => "未记录诊断详情"@,
    }
    &&& v.http_status@ == match d.http_status {
        Some(code) => "HTTP "@ + decimal(code as nat),
        None => "无状态"@,
    }
    &&& v.content_type@ == content_type_text(d.content_type)
    &&& v.body_bytes@ == body_size_text(d.body_bytes)
    &&& v.fetched_at@ == timestamp_text(d.fetched_at, "尚未抓取"@)
    &&& v.redirect_label@ == (if d.redirect_count == 1 {
        "1 次重定向"@
    } else {
        decimal(d.redirect_count as nat) + " 次重定向"@
    })
    &&& v.body_kind@ == (if d.is_html {
        "HTML 已归一化"@
    } else {
        "纯文本"@
    })
    &&& match v.attention_hint {
        Some(h) => attention_hint_text(d.status@) == Some(h@),
        None => attention_hint_text(d.status@) is None,
    }
}

/// Builds the card of a diagnostic.
pub fn diagnostic_card(d: &LinkDiagnostic) -> (v: DiagnosticCardView)
    ensures
        card_is(v, *d),
{
    let mut card_class = String::new();
    push_lit(&mut card_class, "diagnostic-card diagnostic-card--");
    push_lit(&mut card_class, d.status.as_str());
    let detail = match &d.detail {
        Some(t) => translate_diagnostic_detail(t.as_str()),
        None => "未记录诊断详情".to_string(),
    };
    let http_status = match d.http_status {
        Some(code) => {
            let mut s = String::new();
            push_lit(&mut s, "HTTP ");
            push_decimal(&mut s, code as u64);
            s
        },
        None => "无状态".to_string(),
    };
    let redirect_label = if d.redirect_count == 1 {
        "1 次重定向".to_string()
    } else {
        let mut s = String::new();
        push_decimal(&mut s, d.redirect_count as u64);
        push_lit(&mut s, " 次重定向");
        s
    };
    DiagnosticCardView {
        card_class,
        status_class: diagnostic_status_class(d.status.as_str()),
        status_label: diagnostic_status_label(d.status.as_str()),
        detail,
        http_status,
        content_type: content_type_label(&d.content_type),
        body_bytes: body_size_label(d.body_bytes),
        fetched_at: format_timestamp(d.fetched_at, "尚未抓取"),
        redirect_label,
        body_kind: if d.is_html {
            "HTML 已归一化"
        } else {
            "纯文本"
        },
        attention_hint: attention_count_hint(d.status.as_str()),
    }
}

/// What a row of the archive of successful fetches shows.
pub struct SuccessArchiveView {
    pub fetched_at: String,
    pub content_type: String,
    pub body_bytes: String,
}

/// Builds an archive row of a successful fetch.
pub fn success_archive_row(d: &LinkDiagnostic) -> (v: SuccessArchiveView)
    ensures
        v.fetched_at@ == timestamp_text(d.fetched_at, "尚未抓取"@),
        v.content_type@ == content_type_text(d.content_type),
        v.body_bytes@ == body_size_text(d.body_bytes),
{
    SuccessArchiveView {
        fetched_at: format_timestamp(d.fetched_at, "尚未抓取"),
        content_type: content_type_label(&d.content_type),
        body_bytes: body_size_label(d.body_bytes),
    }
}

/// What the body of the diagnostics panel shows.
#[derive(Clone, Debug, PartialEq, Eq)]
pub enum DiagnosticsBody {
    /// The diagnostics could not be loaded; the message says why.
    Failed(String),
    /// The diagnostics are still loading.
    Loading,
    /// No source was fetched yet.
    NoData,
    /// The attention filter is on and nothing needs attention.
    AllHealthy,
    /// The filter lists nothing.
    NothingMatches,
    /// The filter lists diagnostics.
    Listed,
}

/// What the diagnostics panel shows.
pub struct DiagnosticsPanelView {
    /// All diagnostics in listing order.
    pub sorted: Vec<LinkDiagnostic>,
    pub attention: Vec<LinkDiagnostic>,
    pub successes: Vec<LinkDiagnostic>,
    /// Those the selected filter lists.
    pub visible: Vec<LinkDiagnostic>,
    pub attention_count: usize,
    pub summary: DiagnosticsSummary,
    /// Whether the summary and the filter buttons show.
    pub show_filters: bool,
    pub body: DiagnosticsBody,
    /// Whether the archive of successful fetches shows.
    pub show_archive: bool,
}

/// The filter a freshly opened diagnostics panel starts on.
pub fn initial_diagnostic_filter() -> (r: DiagnosticFilter)
    ensures
        r == DiagnosticFilter::Attention,
{
    DiagnosticFilter::Attention
}

/// Works out what the diagnostics panel shows.
pub fn diagnostics_panel_view(
    diagnostics: Option<UserDiagnosticsResponse>,
    diagnostics_error: Option<String>,
    success_count: usize,
    error_count: usize,
    blocked_count: usize,
    pending_count: usize,
    selected_filter: DiagnosticFilter,
) -> (v: DiagnosticsPanelView)
    requires
        error_count + blocked_count + pending_count <= usize::MAX,
    ensures
        v.sorted@ == (match diagnostics {
            Some(p) => listing(p.diagnostics@),
            None => Seq::<LinkDiagnostic>::empty(),
        }),
        v.attention@ == admitted(v.sorted@, DiagnosticFilter::Attention),
        v.successes@ == admitted(v.sorted@, DiagnosticFilter::Success),
        v.visible@ == admitted(v.sorted@, selected_filter),
        v.attention_count == error_count + blocked_count + pending_count,
        summary_is(
            v.summary,
            v.attention_count as nat,
            success_count as nat,
            v.sorted@.len(),
            selected_filter,
        ),
        v.show_filters == (diagnostics is Some && v.sorted@.len() > 0),
        match diagnostics_error {
            Some(m) => v.body == DiagnosticsBody::Failed(m),
            None => v.body == (if diagnostics is None {
                DiagnosticsBody::Loading
            } else if v.sorted@.len() == 0 {
                DiagnosticsBody::NoData
            } else if selected_filter == DiagnosticFilter::Attention && v.attention@.len() == 0 {
                DiagnosticsBody::AllHealthy
            } else if v.visible@.len() == 0 {
                DiagnosticsBody::NothingMatches
            } else {
                DiagnosticsBody::Listed
            }),
        },
        v.show_archive == (diagnostics_error is None && diagnostics is Some && selected_filter
            == DiagnosticFilter::Attention && v.successes@.len() > 0),
{
    let loaded = diagnostics.is_some();
    let sorted = match diagnostics {
        Some(p) => sorted_diagnostics(p.diagnostics),
        None => Vec::new(),
    };
    let attention = filtered_diagnostics(sorted.as_slice(), DiagnosticFilter::Attention);
    let successes = filtered_diagnostics(sorted.as_slice(), DiagnosticFilter::Success);
    let visible = filtered_diagnostics(sorted.as_slice(), selected_filter);
    let attention_count = error_count + blocked_count + pending_count;
    let total_count = sorted.len();
    let summary = diagnostics_summary(attention_count, success_count, total_count, selected_filter);
    let is_attention_filter = selected_filter == DiagnosticFilter::Attention;
    let show_archive = diagnostics_error.is_none() && loaded && is_attention_filter
        && successes.len() > 0;
    let body = match diagnostics_error {
        Some(m) => DiagnosticsBody::Failed(m),
        None => if !loaded {
            DiagnosticsBody::Loading
        } else if total_count == 0 {
            DiagnosticsBody::NoData
        } else if is_attention_filter && attention.len() == 0 {
            DiagnosticsBody::AllHealthy
        } else if visible.len() == 0 {
            DiagnosticsBody::NothingMatches
        } else {
            DiagnosticsBody::Listed
        },
    };
    DiagnosticsPanelView {
        sorted,
        attention,
        successes,
        visible,
        attention_count,
        summary,
        show_filters: loaded && total_count > 0,
        body,
        show_archive,
    }
}

/// Every diagnostic a filter lists is one of the input's and passes the
/// filter, and every input diagnostic that passes it is listed.
proof fn lemma_admitted_members(s: Seq<LinkDiagnostic>, f: DiagnosticFilter)
    ensures
        forall|i: int|
            0 <= i < admitted(s, f).len() ==> s.contains(#[trigger] admitted(s, f)[i]) && admits(
                f,
                admitted(s, f)[i].status@,
            ),
        forall|i: int| 0 <= i < s.len() && admits(f, s[i].status@) ==> admitted(s, f).contains(#[trigger] s[i]),
        admitted(s, f).len() <= s.len(),
    decreases s.len(),
{
    if s.len() > 0 {
        let pre = s.drop_last();
        lemma_admitted_members(pre, f);
        let a = admitted(pre, f);
        assert forall|i: int| 0 <= i < admitted(s, f).len() implies s.contains(#[trigger] admitted(s, f)[i])
            && admits(f, admitted(s, f)[i].status@) by {
            if i < a.len() {
                assert(admitted(s, f)[i] == a[i]);
                let j = choose|j: int| 0 <= j < pre.len() && pre[j] == a[i];
                assert(s[j] == pre[j]);
            } else {
                assert(admitted(s, f)[i] == s.last());
                assert(s[s.len() - 1] == s.last());
            }
        }
        assert forall|i: int| 0 <= i < s.len() && admits(f, s[i].status@) implies admitted(s, f).contains(
            #[trigger] s[i],
        ) by {
            if i < pre.len() {
                assert(pre[i] == s[i]);
                let j = choose|j: int| 0 <= j < a.len() && a[j] == pre[i];
                assert(admitted(s, f)[j] == a[j]);
            } else {
                assert(s[i] == s.last());
                assert(admitted(s, f)[a.len() as int] == s.last());
            }
        }
    }
}

/// Each single-status filter lists exactly the diagnostics whose status is
/// its status text: `error`, `blocked`, `pending` or `success`.  So the
/// filters list disjoint sets, and no filter lists more than the input.
pub proof fn law_status_filters_exact(s: Seq<LinkDiagnostic>)
    ensures
        forall|i: int|
            0 <= i < admitted(s, DiagnosticFilter::Error).len() ==> (#[trigger] admitted(
                s,
                DiagnosticFilter::Error,
            )[i]).status@ == "error"@,
        forall|i: int|
            0 <= i < admitted(s, DiagnosticFilter::Blocked).len() ==> (#[trigger] admitted(
                s,
                DiagnosticFilter::Blocked,
            )[i]).status@ == "blocked"@,
        forall|i: int|
            0 <= i < admitted(s, DiagnosticFilter::Pending).len() ==> (#[trigger] admitted(
                s,
                DiagnosticFilter::Pending,
            )[i]).status@ == "pending"@,
        forall|i: int|
            0 <= i < admitted(s, DiagnosticFilter::Success).len() ==> (#[trigger] admitted(
                s,
                DiagnosticFilter::Success,
            )[i]).status@ == "success"@,
        forall|i: int|
            0 <= i < s.len() && s[i].status@ == "error"@ ==> admitted(s, DiagnosticFilter::Error).contains(
                #[trigger] s[i],
            ),
        forall|i: int|
            0 <= i < s.len() && s[i].status@ == "blocked"@ ==> admitted(
                s,
                DiagnosticFilter::Blocked,
            ).contains(#[trigger] s[i]),
        forall|i: int|
            0 <= i < s.len() && s[i].status@ == "pending"@ ==> admitted(
                s,
                DiagnosticFilter::Pending,
            ).contains(#[trigger] s[i]),
        forall|i: int|
            0 <= i < s.len() && s[i].status@ == "success"@ ==> admitted(
                s,
                DiagnosticFilter::Success,
            ).contains(#[trigger] s[i]),
        forall|i: int| 0 <= i < s.len() ==> admitted(s, DiagnosticFilter::All).contains(#[trigger] s[i]),
        forall|i: int|
            0 <= i < admitted(s, DiagnosticFilter::Attention).len() ==> {
                let st = (#[trigger] admitted(s, DiagnosticFilter::Attention)[i]).status@;
                st == "error"@ || st == "blocked"@ || st == "pending"@
            },
        forall|i: int|
            0 <= i < s.len() && (s[i].status@ == "error"@ || s[i].status@ == "blocked"@ || s[i].status@
                == "pending"@) ==> admitted(s, DiagnosticFilter::Attention).contains(#[trigger] s[i]),
{
    lemma_admitted_members(s, DiagnosticFilter::Attention);
    lemma_admitted_members(s, DiagnosticFilter::Error);
    lemma_admitted_members(s, DiagnosticFilter::Blocked);
    lemma_admitted_members(s, DiagnosticFilter::Pending);
    lemma_admitted_members(s, DiagnosticFilter::Success);
    lemma_admitted_members(s, DiagnosticFilter::All);
}

} // verus!
