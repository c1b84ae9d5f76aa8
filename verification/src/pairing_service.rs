//! The pairing front door: the current pairing code, the per-client failure
//! limiter and the session registry, combined.
//!
//! A fresh code is drawn at every start and on every rotation, and is never
//! read back from anywhere, so a code from an earlier run does not pair.

use vstd::prelude::*;
use vstd::string::StringSliceAdditionalSpecFns;
use crate::net::IpAddr;
use crate::pair_rate_limit::{FailureWindow, PairRateLimiter, limited, next_window};
use crate::pairing_code::{PairingCode, generate_pairing_code, valid_code, verify_pairing_code};
use crate::session::{
    DeviceFingerprint, LiveSession, Session, SessionModel, SessionRegistry, SessionToken,
    device_id_of, session_before,
};

verus! {

/// Why a pairing attempt was refused.
#[derive(Debug, Clone, Copy, PartialEq, Eq, Structural)]
pub enum PairError {
    /// The client failed too often within the current window.
    RateLimited,
    /// The code did not match.
    Invalid,
}

/// Current code, failure limiter and sessions of one running desktop app.
pub struct PairingService {
    current_code: PairingCode,
    rate_limiter: PairRateLimiter,
    sessions: SessionRegistry,
}

impl PairingService {
    /// The bytes of the current pairing code.
    pub closed spec fn code(&self) -> Seq<u8> {
        self.current_code@
    }

    /// The failure window of each tracked client.
    pub closed spec fn failures(&self) -> Map<IpAddr, FailureWindow> {
        self.rate_limiter@
    }

    /// Live sessions by token.
    pub closed spec fn live(&self) -> Map<Seq<char>, LiveSession> {
        self.sessions.live()
    }

    /// Revoked tokens.
    pub closed spec fn revoked_tokens(&self) -> Set<Seq<char>> {
        self.sessions.revoked_tokens()
    }

    /// The limiter and the registry are well formed.
    pub closed spec fn wf(&self) -> bool {
        &&& self.rate_limiter.wf()
        &&& self.sessions.wf()
    }

    /// Finitely many sessions are live.
    pub proof fn lemma_live_finite(&self)
        requires
            self.wf(),
        ensures
            self.live().dom().finite(),
    {
        self.sessions.lemma_wf();
    }

    /// A service with a freshly drawn code and nothing else.
    pub fn new() -> (s: PairingService)
        ensures
            s.wf(),
            valid_code(s.code()),
            s.failures() == Map::<IpAddr, FailureWindow>::empty(),
            s.live() == Map::<Seq<char>, LiveSession>::empty(),
            s.revoked_tokens() == Set::<Seq<char>>::empty(),
    {
        PairingService {
            current_code: generate_pairing_code(),
            rate_limiter: PairRateLimiter::new(),
            sessions: SessionRegistry::new(),
        }
    }

    /// Start-up hook: draws a new code unconditionally; failures and
    /// sessions stay as they are.
    pub fn on_startup(&mut self)
        requires
            old(self).wf(),
        ensures
            final(self).wf(),
            valid_code(final(self).code()),
            final(self).failures() == old(self).failures(),
            final(self).live() == old(self).live(),
            final(self).revoked_tokens() == old(self).revoked_tokens(),
    {
        self.current_code = generate_pairing_code();
    }

    /// The current code.
    pub fn current_pairing_code(&self) -> (c: &PairingCode)
        ensures
            c@ == self.code(),
    {
        &self.current_code
    }

    /// Replaces the code by a freshly drawn one (user-requested rotation)
    /// and returns it; failures and sessions stay as they are.
    pub fn rotate_code(&mut self) -> (c: &PairingCode)
        requires
            old(self).wf(),
        ensures
            final(self).wf(),
            valid_code(final(self).code()),
            c@ == final(self).code(),
            final(self).failures() == old(self).failures(),
            final(self).live() == old(self).live(),
            final(self).revoked_tokens() == old(self).revoked_tokens(),
    {
        self.current_code = generate_pairing_code();
        &self.current_code
    }

    /// Whether `peer` is locked out at monotonic time `mono` (ns).
    pub fn is_rate_limited(&self, peer: IpAddr, mono: u64) -> (r: bool)
        requires
            self.wf(),
        ensures
            r == limited(self.failures().get(peer), mono),
    {
        self.rate_limiter.is_rate_limited(peer, mono)
    }

    /// One pairing attempt by `peer`: refused while it is locked out (the
    /// code is then not even compared); a wrong code counts a failure; the
    /// right code clears the peer's failures and issues a session stamped
    /// with wall-clock time `now` (ms).
    pub fn submit_pair(
        &mut self,
        candidate: &str,
        fp: DeviceFingerprint,
        label: String,
        peer: IpAddr,
        now: u64,
        mono: u64,
    ) -> (r: Result<SessionToken, PairError>)
        requires
            old(self).wf(),
        ensures
            final(self).wf(),
            final(self).code() == old(self).code(),
            limited(old(self).failures().get(peer), mono) ==> {
                &&& r == Err::<SessionToken, PairError>(PairError::RateLimited)
                &&& final(self).failures() == old(self).failures()
                &&& final(self).live() == old(self).live()
                &&& final(self).revoked_tokens() == old(self).revoked_tokens()
            },
            !limited(old(self).failures().get(peer), mono) && candidate.spec_bytes() != old(
                self,
            ).code() ==> {
                &&& r == Err::<SessionToken, PairError>(PairError::Invalid)
                &&& final(self).failures() == old(self).failures().insert(
                    peer,
                    next_window(old(self).failures().get(peer), mono),
                )
                &&& final(self).live() == old(self).live()
                &&& final(self).revoked_tokens() == old(self).revoked_tokens()
            },
            !limited(old(self).failures().get(peer), mono) && candidate.spec_bytes() == old(
                self,
            ).code() ==> {
                &&& r is Ok
                &&& final(self).failures() == old(self).failures().remove(peer)
                &&& final(self).live() == old(self).live().insert(
                    r->Ok_0@,
                    LiveSession {
                        fingerprint: fp@,
                        session: SessionModel {
                            token: r->Ok_0@,
                            device_id: device_id_of(fp@),
                            device_label: label@,
                            paired_at: now,
                            last_seen: now,
                        },
                    },
                )
                &&& final(self).revoked_tokens() == old(self).revoked_tokens().remove(r->Ok_0@)
            },
    {
        if self.rate_limiter.is_rate_limited(peer, mono) {
            return Err(PairError::RateLimited);
        }
        if !verify_pairing_code(&self.current_code, candidate) {
            self.rate_limiter.record_failure(peer, mono);
            return Err(PairError::Invalid);
        }
        self.rate_limiter.record_success(peer);
        Ok(self.sessions.issue(fp, label, now))
    }

    /// Live sessions in listing order (see `SessionRegistry::list_sessions`).
    pub fn list_sessions(&self) -> (r: Vec<Session>)
        requires
            self.wf(),
        ensures
            r@.len() == self.live().dom().len(),
            forall|i: int|
                0 <= i < r@.len() ==> self.live().contains_key((#[trigger] r@[i]).token@)
                    && r@[i]@ == self.live()[r@[i].token@].session,
            forall|i: int, j: int|
                #![trigger r@[i], r@[j]]
                0 <= i < j < r@.len() ==> r@[i].token@ != r@[j].token@ && !session_before(
                    r@[j]@,
                    r@[i]@,
                ),
    {
        self.sessions.list_sessions()
    }

    /// Revokes one token.
    pub fn revoke(&mut self, token: &SessionToken)
        requires
            old(self).wf(),
        ensures
            final(self).wf(),
            final(self).code() == old(self).code(),
            final(self).failures() == old(self).failures(),
            final(self).live() == old(self).live().remove(token@),
            final(self).revoked_tokens() == old(self).revoked_tokens().insert(token@),
    {
        self.sessions.revoke(token);
    }

    /// Revokes every token of one device.
    pub fn revoke_device(&mut self, fp: &DeviceFingerprint)
        requires
            old(self).wf(),
        ensures
            final(self).wf(),
            final(self).code() == old(self).code(),
            final(self).failures() == old(self).failures(),
            forall|t: Seq<char>|
                #[trigger] final(self).live().contains_key(t) <==> old(self).live().contains_key(t)
                    && old(self).live()[t].fingerprint != fp@,
            forall|t: Seq<char>|
                #[trigger] final(self).live().contains_key(t) ==> final(self).live()[t] == old(
                    self,
                ).live()[t],
            forall|t: Seq<char>|
                #[trigger] final(self).revoked_tokens().contains(t) <==> old(
                    self,
                ).revoked_tokens().contains(t) || (old(self).live().contains_key(t) && old(
                    self,
                ).live()[t].fingerprint == fp@),
    {
        self.sessions.revoke_device(fp);
    }

    /// The session registry.
    pub fn sessions(&self) -> (r: &SessionRegistry)
        requires
            self.wf(),
        ensures
            r.wf(),
            r.live() == self.live(),
            r.revoked_tokens() == self.revoked_tokens(),
    {
        &self.sessions
    }

    /// Replaces the registry by an empty one (every session dropped, the
    /// revoked list forgotten).
    pub fn clear_sessions(&mut self)
        requires
            old(self).wf(),
        ensures
            final(self).wf(),
            final(self).code() == old(self).code(),
            final(self).failures() == old(self).failures(),
            final(self).live() == Map::<Seq<char>, LiveSession>::empty(),
            final(self).revoked_tokens() == Set::<Seq<char>>::empty(),
    {
        self.sessions = SessionRegistry::new();
    }

    /// Records activity of a live session (see `SessionRegistry::touch`).
    pub fn touch(&mut self, token: &SessionToken, now: u64)
        requires
            old(self).wf(),
        ensures
            final(self).wf(),
            final(self).code() == old(self).code(),
            final(self).failures() == old(self).failures(),
            final(self).revoked_tokens() == old(self).revoked_tokens(),
            final(self).live() == if old(self).live().contains_key(token@) {
                old(self).live().insert(
                    token@,
                    LiveSession {
                        fingerprint: old(self).live()[token@].fingerprint,
                        session: SessionModel {
                            last_seen: now,
                            ..old(self).live()[token@].session
                        },
                    },
                )
            } else {
                old(self).live()
            },
    {
        self.sessions.touch(token, now);
    }
}

impl Default for PairingService {
    /// The same as `new`.
    fn default() -> (r: Self)
        ensures
            r.wf(),
            valid_code(r.code()),
            r.failures() == Map::<IpAddr, FailureWindow>::empty(),
            r.live() == Map::<Seq<char>, LiveSession>::empty(),
            r.revoked_tokens() == Set::<Seq<char>>::empty(),
    {
        PairingService::new()
    }
}

} // verus!
