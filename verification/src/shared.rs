//! Payloads exchanged between the service and its console.
use vstd::prelude::*;

verus! {

/// The administrator currently logged in.
#[derive(Clone, Debug, PartialEq, Eq)]
pub struct CurrentUserResponse {
    pub username: String,
}

/// A subscription group as the user list shows it.
#[derive(Clone, Debug, PartialEq, Eq)]
pub struct UserSummary {
    pub username: String,
}

/// The source links of a subscription group.
#[derive(Clone, Debug, PartialEq, Eq)]
pub struct UserLinksResponse {
    pub username: String,
    pub links: Vec<String>,
}

/// The state of a subscription group's merged-output cache.
#[derive(Clone, Debug, PartialEq, Eq)]
pub struct UserCacheStatusResponse {
    pub username: String,
    pub state: String,
    pub line_count: u32,
    pub body_bytes: u64,
    pub generated_at: Option<i64>,
    pub expires_at: Option<i64>,
}

/// The outcome of the last fetch of one source link.
#[derive(Clone, Debug, PartialEq, Eq)]
pub struct LinkDiagnostic {
    pub url: String,
    pub status: String,
    pub detail: Option<String>,
    pub http_status: Option<u16>,
    pub content_type: Option<String>,
    pub body_bytes: Option<u64>,
    pub redirect_count: u32,
    pub is_html: bool,
    pub fetched_at: Option<i64>,
}

/// The fetch diagnostics of a subscription group.
#[derive(Clone, Debug, PartialEq, Eq)]
pub struct UserDiagnosticsResponse {
    pub username: String,
    pub diagnostics: Vec<LinkDiagnostic>,
}

} // verus!
