//! The error codes shared with the phone client, and their dictionary keys.

use vstd::prelude::*;
use vstd::string::StringExecFns;
use crate::text::chars_of;

verus! {

/// Every failure the application reports, as the client sees it.
#[derive(Debug, Clone, Copy, PartialEq, Eq, Structural, Hash)]
pub enum ErrorCode {
    OsUnsupported,
    PortUnavailable,
    LanLost,
    MicPermissionDenied,
    AsrTimeout,
    PairInvalid,
    PairRatelimit,
    AuthRequired,
    ForbiddenSubnet,
    InjectNoFocusTarget,
    InjectPermissionDenied,
    InjectPaused,
    InjectBackendError,
    MsgBadFormat,
    ReconnectFailed,
}

/// The wire text of a code, in SCREAMING_SNAKE_CASE.
pub open spec fn code_text(c: ErrorCode) -> Seq<char> {
    match c {
        ErrorCode::OsUnsupported => "OS_UNSUPPORTED"@,
        ErrorCode::PortUnavailable => "PORT_UNAVAILABLE"@,
        ErrorCode::LanLost => "LAN_LOST"@,
        ErrorCode::MicPermissionDenied => "MIC_PERMISSION_DENIED"@,
        ErrorCode::AsrTimeout => "ASR_TIMEOUT"@,
        ErrorCode::PairInvalid => "PAIR_INVALID"@,
        ErrorCode::PairRatelimit => "PAIR_RATELIMIT"@,
        ErrorCode::AuthRequired => "AUTH_REQUIRED"@,
        ErrorCode::ForbiddenSubnet => "FORBIDDEN_SUBNET"@,
        ErrorCode::InjectNoFocusTarget => "INJECT_NO_FOCUS_TARGET"@,
        ErrorCode::InjectPermissionDenied => "INJECT_PERMISSION_DENIED"@,
        ErrorCode::InjectPaused => "INJECT_PAUSED"@,
        ErrorCode::InjectBackendError => "INJECT_BACKEND_ERROR"@,
        ErrorCode::MsgBadFormat => "MSG_BAD_FORMAT"@,
        ErrorCode::ReconnectFailed => "RECONNECT_FAILED"@,
    }
}

/// `error.`, the prefix of every error's dictionary key.
pub open spec fn key_prefix() -> Seq<char> {
    seq!['e', 'r', 'r', 'o', 'r', '.']
}

impl ErrorCode {
    /// The wire text.
    pub fn as_str(self) -> (r: &'static str)
        ensures
            r@ == code_text(self),
    {
        match self {
            ErrorCode::OsUnsupported => "OS_UNSUPPORTED",
            ErrorCode::PortUnavailable => "PORT_UNAVAILABLE",
            ErrorCode::LanLost => "LAN_LOST",
            ErrorCode::MicPermissionDenied => "MIC_PERMISSION_DENIED",
            ErrorCode::AsrTimeout => "ASR_TIMEOUT",
            ErrorCode::PairInvalid => "PAIR_INVALID",
            ErrorCode::PairRatelimit => "PAIR_RATELIMIT",
            ErrorCode::AuthRequired => "AUTH_REQUIRED",
            ErrorCode::ForbiddenSubnet => "FORBIDDEN_SUBNET",
            ErrorCode::InjectNoFocusTarget => "INJECT_NO_FOCUS_TARGET",
            ErrorCode::InjectPermissionDenied => "INJECT_PERMISSION_DENIED",
            ErrorCode::InjectPaused => "INJECT_PAUSED",
            ErrorCode::InjectBackendError => "INJECT_BACKEND_ERROR",
            ErrorCode::MsgBadFormat => "MSG_BAD_FORMAT",
            ErrorCode::ReconnectFailed => "RECONNECT_FAILED",
        }
    }

    /// Every code, in declaration order.
    pub fn all() -> (r: Vec<ErrorCode>)
        ensures
            r@.len() == 15,
            forall|c: ErrorCode| r@.contains(c),
    {
        let r = vec![
            ErrorCode::OsUnsupported,
            ErrorCode::PortUnavailable,
            ErrorCode::LanLost,
            ErrorCode::MicPermissionDenied,
            ErrorCode::AsrTimeout,
            ErrorCode::PairInvalid,
            ErrorCode::PairRatelimit,
            ErrorCode::AuthRequired,
            ErrorCode::ForbiddenSubnet,
            ErrorCode::InjectNoFocusTarget,
            ErrorCode::InjectPermissionDenied,
            ErrorCode::InjectPaused,
            ErrorCode::InjectBackendError,
            ErrorCode::MsgBadFormat,
            ErrorCode::ReconnectFailed,
        ];
        assert forall|c: ErrorCode| r@.contains(c) by {
            match c {
                ErrorCode::OsUnsupported => assert(r@[0] == c),
                ErrorCode::PortUnavailable => assert(r@[1] == c),
                ErrorCode::LanLost => assert(r@[2] == c),
                ErrorCode::MicPermissionDenied => assert(r@[3] == c),
                ErrorCode::AsrTimeout => assert(r@[4] == c),
                ErrorCode::PairInvalid => assert(r@[5] == c),
                ErrorCode::PairRatelimit => assert(r@[6] == c),
                ErrorCode::AuthRequired => assert(r@[7] == c),
                ErrorCode::ForbiddenSubnet => assert(r@[8] == c),
                ErrorCode::InjectNoFocusTarget => assert(r@[9] == c),
                ErrorCode::InjectPermissionDenied => assert(r@[10] == c),
                ErrorCode::InjectPaused => assert(r@[11] == c),
                ErrorCode::InjectBackendError => assert(r@[12] == c),
                ErrorCode::MsgBadFormat => assert(r@[13] == c),
                ErrorCode::ReconnectFailed => assert(r@[14] == c),
            }
        }
        r
    }

    /// The code whose wire text is exactly `s`, if any.
    pub fn parse(s: &str) -> (r: Option<ErrorCode>)
        ensures
            r matches Some(c) ==> code_text(c) == s@,
            r is None ==> forall|c: ErrorCode| code_text(c) != s@,
    {
        let all = ErrorCode::all();
        let target = chars_of(s);
        let mut i: usize = 0;
        while i < all.len()
            invariant
                all@.len() == 15,
                forall|c: ErrorCode| all@.contains(c),
                target@ == s@,
                i <= all@.len(),
                forall|j: int| 0 <= j < i ==> code_text(#[trigger] all@[j]) != s@,
            decreases all@.len() - i,
        {
            let c = all[i];
            let t = chars_of(c.as_str());
            if chars_equal(&t, &target) {
                return Some(c);
            }
            i = i + 1;
        }
        assert forall|c: ErrorCode| code_text(c) != s@ by {
            assert(all@.contains(c));
            let j = choose|j: int| 0 <= j < all@.len() && all@[j] == c;
            assert(code_text(all@[j]) != s@);
        }
        None
    }
}

fn chars_equal(a: &Vec<char>, b: &Vec<char>) -> (r: bool)
    ensures
        r == (a@ == b@),
{
    if a.len() != b.len() {
        return false;
    }
    let mut i: usize = 0;
    while i < a.len()
        invariant
            a@.len() == b@.len(),
            i <= a@.len(),
            forall|j: int| 0 <= j < i ==> a@[j] == b@[j],
        decreases a@.len() - i,
    {
        if a[i] != b[i] {
            return false;
        }
        i = i + 1;
    }
    assert(a@ =~= b@);
    true
}

/// The dictionary key of a code's message: `error.` and the code's text.
pub fn code_to_i18n_key(code: ErrorCode) -> (r: String)
    ensures
        r@ == key_prefix() + code_text(code),
{
    let mut r = String::from_str("error.");
    proof {
        reveal_strlit("error.");
    }
    r.append(code.as_str());
    r
}

/// The dictionary key for the wire text of a code, when it is one.
pub fn i18n_key_for(code: &str) -> (r: Option<String>)
    ensures
        r matches Some(k) ==> exists|c: ErrorCode| code_text(c) == code@ && k@ == key_prefix() + code_text(c),
        r is None ==> forall|c: ErrorCode| code_text(c) != code@,
{
    match ErrorCode::parse(code) {
        Some(c) => Some(code_to_i18n_key(c)),
        None => None,
    }
}

/// Distinct codes have distinct wire texts, so a text names at most one
/// code and every code reads back from its own text.
pub proof fn lemma_code_text_injective(a: ErrorCode, b: ErrorCode)
    requires
        code_text(a) == code_text(b),
    ensures
        a == b,
{
    reveal_strlit("OS_UNSUPPORTED");
    reveal_strlit("PORT_UNAVAILABLE");
    reveal_strlit("LAN_LOST");
    reveal_strlit("MIC_PERMISSION_DENIED");
    reveal_strlit("ASR_TIMEOUT");
    reveal_strlit("PAIR_INVALID");
    reveal_strlit("PAIR_RATELIMIT");
    reveal_strlit("AUTH_REQUIRED");
    reveal_strlit("FORBIDDEN_SUBNET");
    reveal_strlit("INJECT_NO_FOCUS_TARGET");
    reveal_strlit("INJECT_PERMISSION_DENIED");
    reveal_strlit("INJECT_PAUSED");
    reveal_strlit("INJECT_BACKEND_ERROR");
    reveal_strlit("MSG_BAD_FORMAT");
    reveal_strlit("RECONNECT_FAILED");
    let ta = code_text(a);
    let tb = code_text(b);
    assert(ta.len() == tb.len() && ta[0] == tb[0] && ta[1] == tb[1] && ta[2] == tb[2] && ta[4]
        == tb[4] && ta[7] == tb[7] && ta[8] == tb[8]);
}

} // verus!
