//! The console's client of the service API: request methods, the CSRF
//! token it keeps, when it retries, the paths it calls, and the messages
//! it shows for failures and successes.
use vstd::prelude::*;
use crate::messages::{backend_message_text, translate_backend_message};
use crate::text::{chars_of, decimal, is_lit, push_decimal, push_lit};

verus! {

/// The name of the service.
pub const APP_NAME: &'static str = "Submora";

/// The request methods the client sends.
#[derive(Clone, Copy, Debug, PartialEq, Eq)]
pub enum HttpMethod {
    Get,
    Post,
    Put,
    Delete,
}

/// The method named by `method`; any other name is refused.
pub fn request_method(method: &str) -> (r: Result<HttpMethod, String>)
    ensures
        method@ == "GET"@ ==> r == Ok::<HttpMethod, String>(HttpMethod::Get),
        method@ == "POST"@ ==> r == Ok::<HttpMethod, String>(HttpMethod::Post),
        method@ == "PUT"@ ==> r == Ok::<HttpMethod, String>(HttpMethod::Put),
        method@ == "DELETE"@ ==> r == Ok::<HttpMethod, String>(HttpMethod::Delete),
        method@ != "GET"@ && method@ != "POST"@ && method@ != "PUT"@ && method@ != "DELETE"@ ==> (
        r matches Err(m) && m@ == "不支持的请求方法："@ + method@),
{
    let m = chars_of(method);
    proof {
        reveal_strlit("GET");
        reveal_strlit("POST");
        reveal_strlit("PUT");
        reveal_strlit("DELETE");
        assert("GET"@.len() == 3 && "PUT"@.len() == 3 && "POST"@.len() == 4 && "DELETE"@.len() == 6);
        assert("GET"@[0] == 'G' && "PUT"@[0] == 'P');
        assert("GET"@ != "PUT"@);
    }
    if is_lit(m.as_slice(), "GET") {
        Ok(HttpMethod::Get)
    } else if is_lit(m.as_slice(), "POST") {
        Ok(HttpMethod::Post)
    } else if is_lit(m.as_slice(), "PUT") {
        Ok(HttpMethod::Put)
    } else if is_lit(m.as_slice(), "DELETE") {
        Ok(HttpMethod::Delete)
    } else {
        let mut s = String::new();
        push_lit(&mut s, "不支持的请求方法：");
        push_lit(&mut s, method);
        Err(s)
    }
}

/// The CSRF token the client keeps between requests.
pub struct CsrfCache {
    pub token: Option<String>,
}

impl CsrfCache {
    /// No token kept.
    pub fn new() -> (r: Self)
        ensures
            r.token is None,
    {
        CsrfCache { token: None }
    }

    /// Keeps a token fetched from the service.
    pub fn remember(&mut self, token: String)
        ensures
            final(self).token == Some(token),
    {
        self.token = Some(token);
    }
}

/// Forgets the kept token.
pub fn clear_csrf_cache(cache: &mut CsrfCache)
    ensures
        final(cache).token is None,
{
    cache.token = None;
}

/// The kept token, if any.
pub fn cached_csrf_token(cache: &CsrfCache) -> (r: Option<String>)
    ensures
        match r {
            Some(t) => cache.token matches Some(k) && k@ == t@,
            None => cache.token is None,
        },
{
    match &cache.token {
        Some(t) => Some(t.clone()),
        None => None,
    }
}

/// A request without a body carries the CSRF token unless it only reads
/// (`GET` or `HEAD`).
pub fn needs_csrf(method: &str) -> (r: bool)
    ensures
        r == !(method@ == "GET"@ || method@ == "HEAD"@),
{
    let m = chars_of(method);
    !(is_lit(m.as_slice(), "GET") || is_lit(m.as_slice(), "HEAD"))
}

/// A write refused with 403 is sent once more with a fresh token.
pub fn retry_with_fresh_token(status: u16) -> (r: bool)
    ensures
        r == (status == 403),
{
    status == 403
}

/// The service answers 401 to `me` when nobody is signed in.
pub fn signed_out(status: u16) -> (r: bool)
    ensures
        r == (status == 401),
{
    status == 401
}

/// The message for a failed request: the service's own message in the
/// console's wording, or the status when the body could not be read.
pub fn failure_message(body_message: Option<&str>, status: u16) -> (r: String)
    ensures
        match body_message {
            Some(m) => r@ == backend_message_text(m@),
            None => r@ == "请求失败，状态码 "@ + decimal(status as nat),
        },
{
    match body_message {
        Some(m) => translate_backend_message(m),
        None => {
            let mut s = String::new();
            push_lit(&mut s, "请求失败，状态码 ");
            push_decimal(&mut s, status as u64);
            s
        },
    }
}

/// Why the API client fails outside the browser.
pub fn unavailable() -> (r: String)
    ensures
        r@ == "Web API 客户端仅在 wasm32 目标下可用"@,
{
    "Web API 客户端仅在 wasm32 目标下可用".to_string()
}

/// The API path of a subscription group, followed by `tail`.
pub fn user_api_path(username: &str, tail: &str) -> (r: String)
    ensures
        r@ == "/api/users/"@ + username@ + tail@,
{
    let mut s = String::new();
    push_lit(&mut s, "/api/users/");
    push_lit(&mut s, username);
    push_lit(&mut s, tail);
    s
}

/// The messages the console shows when a request succeeded.
#[derive(Clone, Copy, Debug, PartialEq, Eq)]
pub enum ServiceAction {
    Login,
    Logout,
    DeleteUser,
    ClearCache,
    UpdateAccount,
}

/// The message shown after an action succeeded.
pub fn success_message(action: ServiceAction) -> (r: String)
    ensures
        r@ == (match action {
            ServiceAction::Login => "登录成功"@,
            ServiceAction::Logout => "已退出登录"@,
            ServiceAction::DeleteUser => "已删除"@,
            ServiceAction::ClearCache => "缓存已清空"@,
            ServiceAction::UpdateAccount => "账户已更新，请重新登录"@,
        }),
{
    match action {
        ServiceAction::Login => "登录成功".to_string(),
        ServiceAction::Logout => "已退出登录".to_string(),
        ServiceAction::DeleteUser => "已删除".to_string(),
        ServiceAction::ClearCache => "缓存已清空".to_string(),
        ServiceAction::UpdateAccount => "账户已更新，请重新登录".to_string(),
    }
}

/// Signing out and changing the account end the session, so the kept
/// token is forgotten after they succeed.
pub fn forgets_token(action: ServiceAction) -> (r: bool)
    ensures
        r == (action == ServiceAction::Logout || action == ServiceAction::UpdateAccount),
{
    match action {
        ServiceAction::Logout | ServiceAction::UpdateAccount => true,
        _ => false,
    }
}

/// The headers every response carries.
pub fn security_header_pairs() -> (r: Vec<(&'static str, &'static str)>)
    ensures
        r@.len() == 4,
        r@[0].0@ == "x-content-type-options"@ && r@[0].1@ == "nosniff"@,
        r@[1].0@ == "x-frame-options"@ && r@[1].1@ == "DENY"@,
        r@[2].0@ == "referrer-policy"@ && r@[2].1@ == "no-referrer"@,
        r@[3].0@ == "permissions-policy"@ && r@[3].1@ == "camera=(), microphone=(), geolocation=()"@,
{
    let mut r: Vec<(&'static str, &'static str)> = Vec::new();
    r.push(("x-content-type-options", "nosniff"));
    r.push(("x-frame-options", "DENY"));
    r.push(("referrer-policy", "no-referrer"));
    r.push(("permissions-policy", "camera=(), microphone=(), geolocation=()"));
    r
}

} // verus!
