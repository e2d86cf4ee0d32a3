//! Errors that the service answers a request with.
use vstd::prelude::*;

verus! {

/// An HTTP status and the message that goes in the JSON error body.
pub struct ApiError {
    pub status: u16,
    pub message: String,
}

impl ApiError {
    /// 400 Bad Request.
    pub fn bad_request(message: String) -> (e: ApiError)
        ensures
            e.status == 400,
            e.message@ == message@,
    {
        ApiError { status: 400, message }
    }

    /// 401 Unauthorized.
    pub fn unauthorized(message: String) -> (e: ApiError)
        ensures
            e.status == 401,
            e.message@ == message@,
    {
        ApiError { status: 401, message }
    }

    /// 403 Forbidden.
    pub fn forbidden(message: String) -> (e: ApiError)
        ensures
            e.status == 403,
            e.message@ == message@,
    {
        ApiError { status: 403, message }
    }

    /// 404 Not Found.
    pub fn not_found(message: String) -> (e: ApiError)
        ensures
            e.status == 404,
            e.message@ == message@,
    {
        ApiError { status: 404, message }
    }

    /// 429 Too Many Requests.
    pub fn too_many_requests(message: String) -> (e: ApiError)
        ensures
            e.status == 429,
            e.message@ == message@,
    {
        ApiError { status: 429, message }
    }

    /// 500 Internal Server Error.
    pub fn internal(message: String) -> (e: ApiError)
        ensures
            e.status == 500,
            e.message@ == message@,
    {
        ApiError { status: 500, message }
    }
}

} // verus!
