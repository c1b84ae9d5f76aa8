//! `POST /api/pair`: a pairing attempt, and what the phone gets back.

use vstd::prelude::*;
use vstd::string::StringSliceAdditionalSpecFns;
use vstd::string::StringExecFns;
use crate::error_code::ErrorCode;
use crate::net::IpAddr;
use crate::pair_rate_limit::{limited, next_window, FailureWindow, FAILURE_WINDOW_SECS};
use crate::pairing_service::{PairError, PairingService};
use crate::rfc3339::{format_expires_at, rfc3339_text, SESSION_LIFETIME_SECS};
use crate::session::{device_id_of, DeviceFingerprint, LiveSession, SessionModel};
use crate::web_errors::ApiError;

verus! {

/// A successful pairing: what the phone receives (token and expiry) and what
/// the desktop announces (device, label, time).
#[derive(Debug)]
pub struct PairSuccess {
    pub session_token: String,
    pub expires_at: String,
    pub device_id: String,
    pub device_label: String,
    pub paired_at: u64,
}

/// One pairing request by `peer`, at wall-clock `now` (ms) and monotonic
/// `mono` (ns): 429 while the peer is locked out, 401 for a wrong code, and
/// otherwise a new session whose token expires thirty days after `now`.
pub fn handle_pair(
    svc: &mut PairingService,
    pairing_code: &str,
    fingerprint: String,
    device_label: String,
    peer: IpAddr,
    now: u64,
    mono: u64,
) -> (r: Result<PairSuccess, ApiError>)
    requires
        old(svc).wf(),
    ensures
        final(svc).wf(),
        final(svc).code() == old(svc).code(),
        limited(old(svc).failures().get(peer), mono) ==> {
            &&& r matches Err(e) && e.status == 429 && e.code == ErrorCode::PairRatelimit
                && e.retry_after == Some(FAILURE_WINDOW_SECS)
            &&& final(svc).failures() == old(svc).failures()
            &&& final(svc).live() == old(svc).live()
        },
        !limited(old(svc).failures().get(peer), mono) && pairing_code.spec_bytes() != old(
            svc,
        ).code() ==> {
            &&& r matches Err(e) && e.status == 401 && e.code == ErrorCode::PairInvalid
                && e.retry_after is None
            &&& final(svc).failures() == old(svc).failures().insert(
                peer,
                next_window(old(svc).failures().get(peer), mono),
            )
            &&& final(svc).live() == old(svc).live()
        },
        !limited(old(svc).failures().get(peer), mono) && pairing_code.spec_bytes() == old(
            svc,
        ).code() ==> {
            &&& r is Ok
            &&& final(svc).failures() == old(svc).failures().remove(peer)
            &&& final(svc).live() == old(svc).live().insert(
                r->Ok_0.session_token@,
                LiveSession {
                    fingerprint: fingerprint@,
                    session: SessionModel {
                        token: r->Ok_0.session_token@,
                        device_id: device_id_of(fingerprint@),
                        device_label: device_label@,
                        paired_at: now,
                        last_seen: now,
                    },
                },
            )
            &&& r->Ok_0.device_id@ == device_id_of(fingerprint@)
            &&& r->Ok_0.device_label@ == device_label@
            &&& r->Ok_0.paired_at == now
            &&& r->Ok_0.expires_at@ == rfc3339_text((now / 1000 + SESSION_LIFETIME_SECS) as int, 0)
        },
{
    let fp = DeviceFingerprint(fingerprint);
    let label_copy = device_label.clone();
    let outcome = svc.submit_pair(pairing_code, fp, device_label, peer, now, mono);
    let token = match outcome {
        Ok(t) => t,
        Err(PairError::Invalid) => {
            return Err(ApiError::pair_invalid());
        },
        Err(PairError::RateLimited) => {
            return Err(ApiError::pair_rate_limit(FAILURE_WINDOW_SECS));
        },
    };
    let session = match svc.sessions().validate(&token) {
        Ok(s) => s,
        Err(_) => {
            assert(false);
            return Err(ApiError::pair_invalid());
        },
    };
    let expires_at = format_expires_at(session.paired_at);
    Ok(
        PairSuccess {
            session_token: String::from_str(token.as_str()),
            expires_at,
            device_id: session.device_id,
            device_label: label_copy,
            paired_at: session.paired_at,
        },
    )
}

} // verus!
