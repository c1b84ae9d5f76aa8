use phonemic::error_code::ErrorCode;
use phonemic::web_errors::ApiError;

#[test]
fn constructors_set_status_and_code() {
    let e = ApiError::auth_required();
    assert_eq!((e.status, e.code, e.retry_after), (401, ErrorCode::AuthRequired, None));
    assert_eq!(e.message, "authentication required");
    let e = ApiError::forbidden_subnet();
    assert_eq!((e.status, e.code), (403, ErrorCode::ForbiddenSubnet));
    assert_eq!(e.message, "client IP not in LAN subnet");
    let e = ApiError::pair_invalid();
    assert_eq!((e.status, e.code), (401, ErrorCode::PairInvalid));
    let e = ApiError::bad_format("bad".to_string());
    assert_eq!((e.status, e.code), (400, ErrorCode::MsgBadFormat));
    assert_eq!(e.message, "bad");
}

#[test]
fn rate_limit_carries_retry_after() {
    let e = ApiError::pair_rate_limit(42);
    assert_eq!((e.status, e.code), (429, ErrorCode::PairRatelimit));
    assert_eq!(e.retry_after, Some(42));
    assert_eq!(e.retry_after_header(), Some(300));
    assert_eq!(ApiError::pair_invalid().retry_after_header(), None);
}

#[test]
fn with_retry_after_keeps_the_rest() {
    let e = ApiError::new(418, ErrorCode::LanLost, "x".to_string()).with_retry_after(7);
    assert_eq!((e.status, e.code, e.retry_after), (418, ErrorCode::LanLost, Some(7)));
    assert_eq!(e.message, "x");
}
