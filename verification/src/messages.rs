//! The console's Chinese wording of the service's messages.
use vstd::prelude::*;
use crate::text::{
    chars_of, push_chars, string_of, strip_lit_prefix, strip_lit_suffix, strip_prefix,
    strip_prefix_chars, strip_suffix, trim, trim_chars, is_lit,
};

verus! {

/// `a` when it is present, else `b`.
pub open spec fn or_else(a: Option<Seq<char>>, b: Option<Seq<char>>) -> Option<Seq<char>> {
    match a {
        Some(x) => Some(x),
        None => b,
    }
}

/// `out` when the text is exactly `lit`.
pub open spec fn exact_rule(d: Seq<char>, lit: Seq<char>, out: Seq<char>) -> Option<Seq<char>> {
    if d == lit {
        Some(out)
    } else {
        None
    }
}

/// `before`, the rest, and `after`, when the text begins with `prefix`.
pub open spec fn prefix_rule(d: Seq<char>, prefix: Seq<char>, before: Seq<char>, after: Seq<char>) -> Option<Seq<char>> {
    match strip_prefix(d, prefix) {
        Some(v) => Some(before + v + after),
        None => None,
    }
}

/// `before`, the middle, and `after`, when the text begins with `prefix`
/// and ends with `suffix` after it.
pub open spec fn affix_rule(
    d: Seq<char>,
    prefix: Seq<char>,
    suffix: Seq<char>,
    before: Seq<char>,
    after: Seq<char>,
) -> Option<Seq<char>> {
    match strip_prefix(d, prefix) {
        Some(v) => match strip_suffix(v, suffix) {
            Some(w) => Some(before + w + after),
            None => None,
        },
        None => None,
    }
}

/// The wording of the messages about sign-in and account fields.
pub open spec fn account_rules(d: Seq<char>) -> Option<Seq<char>> {
    or_else(
        exact_rule(d, "Please login"@, "请先登录"@),
        or_else(
            exact_rule(d, "invalid username"@, "用户名不合法"@),
            or_else(
                exact_rule(d, "password must be 1-128 characters"@, "密码长度必须为 1 到 128 个字符"@),
                or_else(
                    exact_rule(d, "password must include letters, numbers, and symbols"@, "密码必须同时包含字母、数字和符号"@),
                    or_else(
                        exact_rule(d, "current password is required"@, "必须填写当前密码"@),
                        or_else(
                            exact_rule(d, "current password is incorrect"@, "当前密码不正确"@),
                            or_else(
                                exact_rule(d, "username already exists"@, "用户名已存在"@),
                                None,
                            ),
                        ),
                    ),
                ),
            ),
        ),
    )
}

/// The wording of the messages about missing data, CSRF tokens and fetch outcomes.
pub open spec fn request_rules(d: Seq<char>) -> Option<Seq<char>> {
    or_else(
        exact_rule(d, "must not be empty"@, "不能为空"@),
        or_else(
            exact_rule(d, "user not found"@, "订阅组不存在"@),
            or_else(
                exact_rule(d, "missing csrf token in session"@, "会话中缺少 CSRF 令牌"@),
                or_else(
                    exact_rule(d, "missing csrf token header"@, "请求缺少 CSRF 令牌"@),
                    or_else(
                        exact_rule(d, "invalid csrf token"@, "CSRF 令牌无效"@),
                        or_else(
                            exact_rule(d, "Fetch completed successfully"@, "抓取成功"@),
                            or_else(
                                exact_rule(d, "No fetch attempt recorded yet"@, "尚未记录抓取尝试"@),
                                None,
                            ),
                        ),
                    ),
                ),
            ),
        ),
    )
}

/// The wording of the messages about rate limits and maximum counts.
pub open spec fn limit_rules(d: Seq<char>) -> Option<Seq<char>> {
    or_else(
        affix_rule(d, "too many login attempts, retry in "@, "s"@, "登录尝试过多，请在 "@, " 秒后重试"@),
        or_else(
            affix_rule(d, "too many public requests, retry in "@, "s"@, "公共请求过多，请在 "@, " 秒后重试"@),
            or_else(
                affix_rule(d, "maximum "@, " users allowed"@, "最多允许 "@, " 个订阅组"@),
                or_else(
                    affix_rule(d, "maximum "@, " allowed"@, "最多允许 "@, " 项"@),
                    None,
                ),
            ),
        ),
    )
}

/// The wording of the messages about user names, orders and URLs.
pub open spec fn name_rules(d: Seq<char>) -> Option<Seq<char>> {
    or_else(
        prefix_rule(d, "invalid username: "@, "用户名不合法："@, ""@),
        or_else(
            prefix_rule(d, "duplicate username: "@, "用户名重复："@, ""@),
            or_else(
                exact_rule(d, "order must include every existing user exactly once"@, "排序必须且只能包含每个现有用户一次"@),
                or_else(
                    prefix_rule(d, "invalid url: "@, "无效的 URL："@, ""@),
                    or_else(
                        prefix_rule(d, "unsupported scheme: "@, "不支持的协议："@, ""@),
                        None,
                    ),
                ),
            ),
        ),
    )
}

/// The wording of the messages about hosts, targets and redirects.
pub open spec fn target_rules(d: Seq<char>) -> Option<Seq<char>> {
    or_else(
        prefix_rule(d, "missing host: "@, "缺少主机名："@, ""@),
        or_else(
            prefix_rule(d, "failed to resolve host: "@, "解析主机失败："@, ""@),
            or_else(
                prefix_rule(d, "unsafe target: "@, "不安全的目标："@, ""@),
                or_else(
                    prefix_rule(d, "redirect missing location header: "@, "重定向响应缺少 Location 头："@, ""@),
                    or_else(
                        prefix_rule(d, "redirect location is not valid utf-8: "@, "重定向 Location 不是有效的 UTF-8："@, ""@),
                        or_else(
                            prefix_rule(d, "invalid redirect target from "@, "重定向目标无效："@, ""@),
                            None,
                        ),
                    ),
                ),
            ),
        ),
    )
}

/// The wording of the messages about failed fetches.
pub open spec fn fetch_rules(d: Seq<char>) -> Option<Seq<char>> {
    or_else(
        prefix_rule(d, "content too large: exceeds "@, "内容过大：流式读取时超过 "@, ""@),
        or_else(
            prefix_rule(d, "failed to fetch "@, "抓取失败："@, ""@),
            or_else(
                prefix_rule(d, "too many redirects while fetching "@, "抓取时重定向过多："@, ""@),
                or_else(
                    prefix_rule(d, "unexpected response status "@, "收到异常响应状态："@, ""@),
                    or_else(
                        prefix_rule(d, "content too large while fetching "@, "抓取内容过大："@, ""@),
                        None,
                    ),
                ),
            ),
        ),
    )
}

/// The console's wording of a detail message from the service; a message
/// that no rule knows is kept as it is.
pub open spec fn detail_text(d: Seq<char>) -> Seq<char> {
    match or_else(
        account_rules(d),
        or_else(
            request_rules(d),
            or_else(
                limit_rules(d),
                or_else(name_rules(d), or_else(target_rules(d), fetch_rules(d))),
            ),
        ),
    ) {
        Some(t) => t,
        None => d,
    }
}

fn apply_exact(d: &[char], lit: &str, out: &str) -> (r: Option<String>)
    ensures
        match r {
            Some(t) => exact_rule(d@, lit@, out@) == Some(t@),
            None => exact_rule(d@, lit@, out@) is None,
        },
{
    if is_lit(d, lit) {
        Some(String::from_str(out))
    } else {
        None
    }
}

fn apply_prefix(d: &[char], prefix: &str, before: &str, after: &str) -> (r: Option<String>)
    ensures
        match r {
            Some(t) => prefix_rule(d@, prefix@, before@, after@) == Some(t@),
            None => prefix_rule(d@, prefix@, before@, after@) is None,
        },
{
    match strip_lit_prefix(d, prefix) {
        Some(v) => {
            let mut s = String::from_str(before);
            push_chars(&mut s, v.as_slice());
            s.append(after);
            Some(s)
        },
        None => None,
    }
}

fn apply_affix(d: &[char], prefix: &str, suffix: &str, before: &str, after: &str) -> (r: Option<
    String,
>)
    ensures
        match r {
            Some(t) => affix_rule(d@, prefix@, suffix@, before@, after@) == Some(t@),
            None => affix_rule(d@, prefix@, suffix@, before@, after@) is None,
        },
{
    match strip_lit_prefix(d, prefix) {
        Some(v) => match strip_lit_suffix(v.as_slice(), suffix) {
            Some(w) => {
                let mut s = String::from_str(before);
                push_chars(&mut s, w.as_slice());
                s.append(after);
                Some(s)
            },
            None => None,
        },
        None => None,
    }
}

fn account_rules_text(d: &[char]) -> (r: Option<String>)
    ensures
        match r {
            Some(t) => account_rules(d@) == Some(t@),
            None => account_rules(d@) is None,
        },
{
    if let Some(t) = apply_exact(d, "Please login", "请先登录") {
        return Some(t);
    }
    if let Some(t) = apply_exact(d, "invalid username", "用户名不合法") {
        return Some(t);
    }
    if let Some(t) = apply_exact(d, "password must be 1-128 characters", "密码长度必须为 1 到 128 个字符") {
        return Some(t);
    }
    if let Some(t) = apply_exact(d, "password must include letters, numbers, and symbols", "密码必须同时包含字母、数字和符号") {
        return Some(t);
    }
    if let Some(t) = apply_exact(d, "current password is required", "必须填写当前密码") {
        return Some(t);
    }
    if let Some(t) = apply_exact(d, "current password is incorrect", "当前密码不正确") {
        return Some(t);
    }
    if let Some(t) = apply_exact(d, "username already exists", "用户名已存在") {
        return Some(t);
    }
    None
}

fn request_rules_text(d: &[char]) -> (r: Option<String>)
    ensures
        match r {
            Some(t) => request_rules(d@) == Some(t@),
            None => request_rules(d@) is None,
        },
{
    if let Some(t) = apply_exact(d, "must not be empty", "不能为空") {
        return Some(t);
    }
    if let Some(t) = apply_exact(d, "user not found", "订阅组不存在") {
        return Some(t);
    }
    if let Some(t) = apply_exact(d, "missing csrf token in session", "会话中缺少 CSRF 令牌") {
        return Some(t);
    }
    if let Some(t) = apply_exact(d, "missing csrf token header", "请求缺少 CSRF 令牌") {
        return Some(t);
    }
    if let Some(t) = apply_exact(d, "invalid csrf token", "CSRF 令牌无效") {
        return Some(t);
    }
    if let Some(t) = apply_exact(d, "Fetch completed successfully", "抓取成功") {
        return Some(t);
    }
    if let Some(t) = apply_exact(d, "No fetch attempt recorded yet", "尚未记录抓取尝试") {
        return Some(t);
    }
    None
}

fn limit_rules_text(d: &[char]) -> (r: Option<String>)
    ensures
        match r {
            Some(t) => limit_rules(d@) == Some(t@),
            None => limit_rules(d@) is None,
        },
{
    if let Some(t) = apply_affix(d, "too many login attempts, retry in ", "s", "登录尝试过多，请在 ", " 秒后重试") {
        return Some(t);
    }
    if let Some(t) = apply_affix(d, "too many public requests, retry in ", "s", "公共请求过多，请在 ", " 秒后重试") {
        return Some(t);
    }
    if let Some(t) = apply_affix(d, "maximum ", " users allowed", "最多允许 ", " 个订阅组") {
        return Some(t);
    }
    if let Some(t) = apply_affix(d, "maximum ", " allowed", "最多允许 ", " 项") {
        return Some(t);
    }
    None
}

fn name_rules_text(d: &[char]) -> (r: Option<String>)
    ensures
        match r {
            Some(t) => name_rules(d@) == Some(t@),
            None => name_rules(d@) is None,
        },
{
    if let Some(t) = apply_prefix(d, "invalid username: ", "用户名不合法：", "") {
        return Some(t);
    }
    if let Some(t) = apply_prefix(d, "duplicate username: ", "用户名重复：", "") {
        return Some(t);
    }
    if let Some(t) = apply_exact(d, "order must include every existing user exactly once", "排序必须且只能包含每个现有用户一次") {
        return Some(t);
    }
    if let Some(t) = apply_prefix(d, "invalid url: ", "无效的 URL：", "") {
        return Some(t);
    }
    if let Some(t) = apply_prefix(d, "unsupported scheme: ", "不支持的协议：", "") {
        return Some(t);
    }
    None
}

fn target_rules_text(d: &[char]) -> (r: Option<String>)
    ensures
        match r {
            Some(t) => target_rules(d@) == Some(t@),
            None => target_rules(d@) is None,
        },
{
    if let Some(t) = apply_prefix(d, "missing host: ", "缺少主机名：", "") {
        return Some(t);
    }
    if let Some(t) = apply_prefix(d, "failed to resolve host: ", "解析主机失败：", "") {
        return Some(t);
    }
    if let Some(t) = apply_prefix(d, "unsafe target: ", "不安全的目标：", "") {
        return Some(t);
    }
    if let Some(t) = apply_prefix(d, "redirect missing location header: ", "重定向响应缺少 Location 头：", "") {
        return Some(t);
    }
    if let Some(t) = apply_prefix(d, "redirect location is not valid utf-8: ", "重定向 Location 不是有效的 UTF-8：", "") {
        return Some(t);
    }
    if let Some(t) = apply_prefix(d, "invalid redirect target from ", "重定向目标无效：", "") {
        return Some(t);
    }
    None
}

fn fetch_rules_text(d: &[char]) -> (r: Option<String>)
    ensures
        match r {
            Some(t) => fetch_rules(d@) == Some(t@),
            None => fetch_rules(d@) is None,
        },
{
    if let Some(t) = apply_prefix(d, "content too large: exceeds ", "内容过大：流式读取时超过 ", "") {
        return Some(t);
    }
    if let Some(t) = apply_prefix(d, "failed to fetch ", "抓取失败：", "") {
        return Some(t);
    }
    if let Some(t) = apply_prefix(d, "too many redirects while fetching ", "抓取时重定向过多：", "") {
        return Some(t);
    }
    if let Some(t) = apply_prefix(d, "unexpected response status ", "收到异常响应状态：", "") {
        return Some(t);
    }
    if let Some(t) = apply_prefix(d, "content too large while fetching ", "抓取内容过大：", "") {
        return Some(t);
    }
    None
}

fn translate_detail_chars(d: &[char]) -> (r: String)
    ensures
        r@ == detail_text(d@),
{
    let found = match account_rules_text(d) {
        Some(t) => Some(t),
        None => match request_rules_text(d) {
            Some(t) => Some(t),
            None => match limit_rules_text(d) {
                Some(t) => Some(t),
                None => match name_rules_text(d) {
                    Some(t) => Some(t),
                    None => match target_rules_text(d) {
                        Some(t) => Some(t),
                        None => fetch_rules_text(d),
                    },
                },
            },
        },
    };
    match found {
        Some(t) => t,
        None => string_of(d),
    }
}

/// The console's wording of a detail message from the service.
pub fn translate_detail(detail: &str) -> (r: String)
    ensures
        r@ == detail_text(detail@),
{
    let d = chars_of(detail);
    translate_detail_chars(d.as_slice())
}

/// The console's wording of a fetch diagnostic's detail.
pub fn translate_diagnostic_detail(detail: &str) -> (r: String)
    ensures
        r@ == detail_text(detail@),
{
    translate_detail(detail)
}

/// A field prefix and its wording: when `m` begins with `field`, the wording
/// followed by the rest in the console's wording.
pub open spec fn field_rule(m: Seq<char>, field: Seq<char>, label: Seq<char>) -> Option<Seq<char>> {
    match strip_prefix(m, field) {
        Some(v) => Some(label + detail_text(v)),
        None => None,
    }
}

/// The console's wording of an error message from the service: a message
/// about one field names the field in Chinese and words the rest likewise.
pub open spec fn backend_message_text(m: Seq<char>) -> Seq<char> {
    match or_else(
        field_rule(m, "username: "@, "用户名："@),
        or_else(
            field_rule(m, "password: "@, "密码："@),
            or_else(
                field_rule(m, "new_username: "@, "新用户名："@),
                or_else(
                    field_rule(m, "new_password: "@, "新密码："@),
                    or_else(
                        field_rule(m, "current_password: "@, "当前密码："@),
                        or_else(
                            field_rule(m, "links: "@, "链接："@),
                            field_rule(m, "order: "@, "排序："@),
                        ),
                    ),
                ),
            ),
        ),
    ) {
        Some(t) => t,
        None => detail_text(m),
    }
}

fn apply_field(m: &[char], field: &str, label: &str) -> (r: Option<String>)
    ensures
        match r {
            Some(t) => field_rule(m@, field@, label@) == Some(t@),
            None => field_rule(m@, field@, label@) is None,
        },
{
    match strip_lit_prefix(m, field) {
        Some(v) => {
            let mut s = String::from_str(label);
            let t = translate_detail_chars(v.as_slice());
            s.append(t.as_str());
            Some(s)
        },
        None => None,
    }
}

/// The console's wording of an error message from the service.
pub fn translate_backend_message(message: &str) -> (r: String)
    ensures
        r@ == backend_message_text(message@),
{
    let m = chars_of(message);
    if let Some(t) = apply_field(m.as_slice(), "username: ", "用户名：") {
        return t;
    }
    if let Some(t) = apply_field(m.as_slice(), "password: ", "密码：") {
        return t;
    }
    if let Some(t) = apply_field(m.as_slice(), "new_username: ", "新用户名：") {
        return t;
    }
    if let Some(t) = apply_field(m.as_slice(), "new_password: ", "新密码：") {
        return t;
    }
    if let Some(t) = apply_field(m.as_slice(), "current_password: ", "当前密码：") {
        return t;
    }
    if let Some(t) = apply_field(m.as_slice(), "links: ", "链接：") {
        return t;
    }
    if let Some(t) = apply_field(m.as_slice(), "order: ", "排序：") {
        return t;
    }
    translate_detail_chars(m.as_slice())
}

/// The message about one field, by its name or its Chinese label (with a
/// full-width or an ASCII colon), with the rest trimmed.
pub open spec fn field_error_text(m: Seq<char>, field: Seq<char>, label: Seq<char>) -> Option<Seq<char>> {
    let rest = match strip_prefix(m, field + ": "@) {
        Some(v) => Some(v),
        None => match strip_prefix(m, label + "："@) {
            Some(v) => Some(v),
            None => strip_prefix(m, label + ": "@),
        },
    };
    match rest {
        Some(v) => Some(trim(v)),
        None => None,
    }
}

fn strip_joined(m: &[char], head: &str, tail: &str) -> (r: Option<Vec<char>>)
    ensures
        match r {
            Some(v) => strip_prefix(m@, head@ + tail@) == Some(v@),
            None => strip_prefix(m@, head@ + tail@) is None,
        },
{
    let mut p = chars_of(head);
    let t = chars_of(tail);
    let mut i: usize = 0;
    while i < t.len()
        invariant
            i <= t@.len(),
            p@ == head@ + t@.subrange(0, i as int),
        decreases t@.len() - i,
    {
        p.push(t[i]);
        i = i + 1;
        assert(p@ =~= head@ + t@.subrange(0, i as int));
    }
    assert(t@.subrange(0, t@.len() as int) =~= t@);
    strip_prefix_chars(m, p.as_slice())
}

/// Extracts the validation error about one field from a message in the
/// console's wording.
pub fn extract_field_validation_error(message: &str, field_name: &str, localized_field_name: &str) -> (r:
    Option<String>)
    ensures
        match r {
            Some(t) => field_error_text(message@, field_name@, localized_field_name@) == Some(t@),
            None => field_error_text(message@, field_name@, localized_field_name@) is None,
        },
{
    let m = chars_of(message);
    let rest = match strip_joined(m.as_slice(), field_name, ": ") {
        Some(v) => Some(v),
        None => match strip_joined(m.as_slice(), localized_field_name, "：") {
            Some(v) => Some(v),
            None => strip_joined(m.as_slice(), localized_field_name, ": "),
        },
    };
    match rest {
        Some(v) => {
            let t = trim_chars(v.as_slice());
            Some(string_of(t.as_slice()))
        },
        None => None,
    }
}

/// A text stripped of a prefix it begins with gives back what followed.
proof fn lemma_strip_joined_prefix(p: Seq<char>, d: Seq<char>)
    ensures
        strip_prefix(p + d, p) == Some(d),
{
    assert((p + d).subrange(0, p.len() as int) =~= p);
    assert((p + d).subrange(p.len() as int, (p + d).len() as int) =~= d);
}

/// A text that differs from `p` at one of `p`'s places does not begin with
/// `p`.
proof fn lemma_differs_from_prefix(s: Seq<char>, p: Seq<char>, i: int)
    requires
        0 <= i < p.len(),
        i < s.len(),
        s[i] != p[i],
    ensures
        strip_prefix(s, p) is None,
{
    if p.len() <= s.len() {
        assert(s.subrange(0, p.len() as int)[i] == s[i]);
    }
}

/// A message about one of the service's fields (`username`, `password`,
/// `new_username`, `new_password`, `current_password`, `links`, `order`) is
/// worded as the field's Chinese label, a full-width colon, and the rest of
/// the message in the console's wording.
pub proof fn law_field_wording(d: Seq<char>)
    ensures
        backend_message_text("username: "@ + d) == "用户名："@ + detail_text(d),
        backend_message_text("password: "@ + d) == "密码："@ + detail_text(d),
        backend_message_text("new_username: "@ + d) == "新用户名："@ + detail_text(d),
        backend_message_text("new_password: "@ + d) == "新密码："@ + detail_text(d),
        backend_message_text("current_password: "@ + d) == "当前密码："@ + detail_text(d),
        backend_message_text("links: "@ + d) == "链接："@ + detail_text(d),
        backend_message_text("order: "@ + d) == "排序："@ + detail_text(d),
{
    reveal_strlit("username: ");
    reveal_strlit("password: ");
    reveal_strlit("new_username: ");
    reveal_strlit("new_password: ");
    reveal_strlit("current_password: ");
    reveal_strlit("links: ");
    reveal_strlit("order: ");
    let u = "username: "@;
    let p = "password: "@;
    let nu = "new_username: "@;
    let np = "new_password: "@;
    let cp = "current_password: "@;
    let l = "links: "@;
    let o = "order: "@;
    lemma_strip_joined_prefix(u, d);
    lemma_strip_joined_prefix(p, d);
    lemma_strip_joined_prefix(nu, d);
    lemma_strip_joined_prefix(np, d);
    lemma_strip_joined_prefix(cp, d);
    lemma_strip_joined_prefix(l, d);
    lemma_strip_joined_prefix(o, d);
    lemma_differs_from_prefix(p + d, u, 0);
    lemma_differs_from_prefix(nu + d, u, 0);
    lemma_differs_from_prefix(nu + d, p, 0);
    lemma_differs_from_prefix(np + d, u, 0);
    lemma_differs_from_prefix(np + d, p, 0);
    lemma_differs_from_prefix(np + d, nu, 4);
    lemma_differs_from_prefix(cp + d, u, 0);
    lemma_differs_from_prefix(cp + d, p, 0);
    lemma_differs_from_prefix(cp + d, nu, 0);
    lemma_differs_from_prefix(cp + d, np, 0);
    lemma_differs_from_prefix(l + d, u, 0);
    lemma_differs_from_prefix(l + d, p, 0);
    lemma_differs_from_prefix(l + d, nu, 0);
    lemma_differs_from_prefix(l + d, np, 0);
    lemma_differs_from_prefix(l + d, cp, 0);
    lemma_differs_from_prefix(o + d, u, 0);
    lemma_differs_from_prefix(o + d, p, 0);
    lemma_differs_from_prefix(o + d, nu, 0);
    lemma_differs_from_prefix(o + d, np, 0);
    lemma_differs_from_prefix(o + d, cp, 0);
    lemma_differs_from_prefix(o + d, l, 0);
}

/// A worded message that begins with a field's label and a full-width colon
/// gives back the rest, trimmed, as that field's error.
proof fn lemma_label_found(field: Seq<char>, label: Seq<char>, rest: Seq<char>)
    requires
        field.len() > 0,
        label.len() > 0,
        field[0] != label[0],
    ensures
        field_error_text(label + "："@ + rest, field, label) == Some(trim(rest)),
{
    let m = label + "："@ + rest;
    assert(m[0] == label[0]);
    assert((field + ": "@)[0] == field[0]);
    lemma_differs_from_prefix(m, field + ": "@, 0);
    assert(m =~= (label + "："@) + rest);
    lemma_strip_joined_prefix(label + "："@, rest);
}

proof fn lemma_worded_field_found(
    d: Seq<char>,
    field: Seq<char>,
    label: Seq<char>,
    prefix: Seq<char>,
    heading: Seq<char>,
)
    requires
        field.len() > 0,
        label.len() > 0,
        field[0] != label[0],
        heading == label + "："@,
        backend_message_text(prefix) == heading + detail_text(d),
    ensures
        field_error_text(backend_message_text(prefix), field, label) == Some(trim(detail_text(d))),
{
    lemma_label_found(field, label, detail_text(d));
}

/// A message about one of the service's fields, once worded for the
/// console, is found again as that field's error: the worded rest of the
/// message, trimmed.
#[verifier::rlimit(60)]
pub proof fn law_field_error_found_after_wording(d: Seq<char>)
    ensures
        field_error_text(backend_message_text("username: "@ + d), "username"@, "用户名"@) == Some(
            trim(detail_text(d)),
        ),
        field_error_text(backend_message_text("password: "@ + d), "password"@, "密码"@) == Some(
            trim(detail_text(d)),
        ),
        field_error_text(backend_message_text("new_username: "@ + d), "new_username"@, "新用户名"@)
            == Some(trim(detail_text(d))),
        field_error_text(backend_message_text("new_password: "@ + d), "new_password"@, "新密码"@)
            == Some(trim(detail_text(d))),
        field_error_text(
            backend_message_text("current_password: "@ + d),
            "current_password"@,
            "当前密码"@,
        ) == Some(trim(detail_text(d))),
        field_error_text(backend_message_text("links: "@ + d), "links"@, "链接"@) == Some(
            trim(detail_text(d)),
        ),
        field_error_text(backend_message_text("order: "@ + d), "order"@, "排序"@) == Some(
            trim(detail_text(d)),
        ),
{
    assert(field_error_text(backend_message_text("username: "@ + d), "username"@, "用户名"@) == Some(
        trim(detail_text(d)),
    )) by {
        law_field_wording(d);
        reveal_strlit("：");
        reveal_strlit("用户名：");
        reveal_strlit("用户名");
        reveal_strlit("username");
        assert("用户名："@ =~= "用户名"@ + "："@);
        lemma_worded_field_found(d, "username"@, "用户名"@, "username: "@ + d, "用户名："@);
    }
    assert(field_error_text(backend_message_text("password: "@ + d), "password"@, "密码"@) == Some(
        trim(detail_text(d)),
    )) by {
        law_field_wording(d);
        reveal_strlit("：");
        reveal_strlit("密码：");
        reveal_strlit("密码");
        reveal_strlit("password");
        assert("密码："@ =~= "密码"@ + "："@);
        lemma_worded_field_found(d, "password"@, "密码"@, "password: "@ + d, "密码："@);
    }
    assert(field_error_text(backend_message_text("new_username: "@ + d), "new_username"@, "新用户名"@) == Some(
        trim(detail_text(d)),
    )) by {
        law_field_wording(d);
        reveal_strlit("：");
        reveal_strlit("新用户名：");
        reveal_strlit("新用户名");
        reveal_strlit("new_username");
        assert("新用户名："@ =~= "新用户名"@ + "："@);
        lemma_worded_field_found(d, "new_username"@, "新用户名"@, "new_username: "@ + d, "新用户名："@);
    }
    assert(field_error_text(backend_message_text("new_password: "@ + d), "new_password"@, "新密码"@) == Some(
        trim(detail_text(d)),
    )) by {
        law_field_wording(d);
        reveal_strlit("：");
        reveal_strlit("新密码：");
        reveal_strlit("新密码");
        reveal_strlit("new_password");
        assert("新密码："@ =~= "新密码"@ + "："@);
        lemma_worded_field_found(d, "new_password"@, "新密码"@, "new_password: "@ + d, "新密码："@);
    }
    assert(field_error_text(backend_message_text("current_password: "@ + d), "current_password"@, "当前密码"@) == Some(
        trim(detail_text(d)),
    )) by {
        law_field_wording(d);
        reveal_strlit("：");
        reveal_strlit("当前密码：");
        reveal_strlit("当前密码");
        reveal_strlit("current_password");
        assert("当前密码："@ =~= "当前密码"@ + "："@);
        lemma_worded_field_found(d, "current_password"@, "当前密码"@, "current_password: "@ + d, "当前密码："@);
    }
    assert(field_error_text(backend_message_text("links: "@ + d), "links"@, "链接"@) == Some(
        trim(detail_text(d)),
    )) by {
        law_field_wording(d);
        reveal_strlit("：");
        reveal_strlit("链接：");
        reveal_strlit("链接");
        reveal_strlit("links");
        assert("链接："@ =~= "链接"@ + "："@);
        lemma_worded_field_found(d, "links"@, "链接"@, "links: "@ + d, "链接："@);
    }
    assert(field_error_text(backend_message_text("order: "@ + d), "order"@, "排序"@) == Some(
        trim(detail_text(d)),
    )) by {
        law_field_wording(d);
        reveal_strlit("：");
        reveal_strlit("排序：");
        reveal_strlit("排序");
        reveal_strlit("order");
        assert("排序："@ =~= "排序"@ + "："@);
        lemma_worded_field_found(d, "order"@, "排序"@, "order: "@ + d, "排序："@);
    }
}

} // verus!
