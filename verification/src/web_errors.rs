//! Errors the HTTP API answers with: status, code and message.

use vstd::prelude::*;
use vstd::string::StringExecFns;
use crate::error_code::ErrorCode;
use crate::pair_rate_limit::FAILURE_WINDOW_SECS;

verus! {

/// An API failure as the client receives it.
#[derive(Debug)]
pub struct ApiError {
    /// HTTP status code.
    pub status: u16,
    pub code: ErrorCode,
    pub message: String,
    /// Seconds after which a rate-limited client may try again, sent as the
    /// `retryAfter` detail.
    pub retry_after: Option<u64>,
}

impl ApiError {
    /// An error without detail.
    pub fn new(status: u16, code: ErrorCode, message: String) -> (r: Self)
        ensures
            r.status == status,
            r.code == code,
            r.message@ == message@,
            r.retry_after is None,
    {
        ApiError { status, code, message, retry_after: None }
    }

    /// The same error with a retry-after detail.
    pub fn with_retry_after(self, secs: u64) -> (r: Self)
        ensures
            r.status == self.status,
            r.code == self.code,
            r.message@ == self.message@,
            r.retry_after == Some(secs),
    {
        ApiError { retry_after: Some(secs), ..self }
    }

    /// 401: the request carries no valid session.
    pub fn auth_required() -> (r: Self)
        ensures
            r.status == 401,
            r.code == ErrorCode::AuthRequired,
            r.message@ == "authentication required"@,
            r.retry_after is None,
    {
        ApiError::new(401, ErrorCode::AuthRequired, String::from_str("authentication required"))
    }

    /// 403: the client is outside the LAN.
    pub fn forbidden_subnet() -> (r: Self)
        ensures
            r.status == 403,
            r.code == ErrorCode::ForbiddenSubnet,
            r.message@ == "client IP not in LAN subnet"@,
            r.retry_after is None,
    {
        ApiError::new(403, ErrorCode::ForbiddenSubnet, String::from_str("client IP not in LAN subnet"))
    }

    /// 401: the pairing code is wrong.
    pub fn pair_invalid() -> (r: Self)
        ensures
            r.status == 401,
            r.code == ErrorCode::PairInvalid,
            r.message@ == "invalid pairing code"@,
            r.retry_after is None,
    {
        ApiError::new(401, ErrorCode::PairInvalid, String::from_str("invalid pairing code"))
    }

    /// 429: too many failed pairing attempts; retry after `retry_after_secs`.
    pub fn pair_rate_limit(retry_after_secs: u64) -> (r: Self)
        ensures
            r.status == 429,
            r.code == ErrorCode::PairRatelimit,
            r.message@ == "too many failed pairing attempts"@,
            r.retry_after == Some(retry_after_secs),
    {
        ApiError::new(
            429,
            ErrorCode::PairRatelimit,
            String::from_str("too many failed pairing attempts"),
        ).with_retry_after(retry_after_secs)
    }

    /// 400: a malformed message.
    pub fn bad_format(message: String) -> (r: Self)
        ensures
            r.status == 400,
            r.code == ErrorCode::MsgBadFormat,
            r.message@ == message@,
            r.retry_after is None,
    {
        ApiError::new(400, ErrorCode::MsgBadFormat, message)
    }

    /// The `Retry-After` header a response to this error carries: the full
    /// failure window for a rate limit, none otherwise.
    pub fn retry_after_header(&self) -> (r: Option<u64>)
        ensures
            r == (if self.code == ErrorCode::PairRatelimit {
                Some(FAILURE_WINDOW_SECS)
            } else {
                None::<u64>
            }),
    {
        match self.code {
            ErrorCode::PairRatelimit => Some(FAILURE_WINDOW_SECS),
            _ => None,
        }
    }
}

} // verus!
