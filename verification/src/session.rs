//! Session tokens and the registry of paired devices.
//!
//! A token is 32 random bytes in unpadded base64url. A session records the
//! device it was issued to (by a digest of its fingerprint), a label and two
//! wall-clock times in milliseconds since the Unix epoch. Revoked tokens are
//! remembered, so that checking one tells "revoked" apart from "never issued".

use vstd::prelude::*;
use vstd::string::StringSliceAdditionalSpecFns;
use vstd::utf8::encode_utf8;
use crate::assoc::{assoc_map, keys_distinct, lemma_absent, lemma_entry, lemma_len, lemma_push, lemma_remove, lemma_set};
use crate::codec::{lemma_base64url_text, base64url_encode, base64url_text, is_base64url_char, hex_encode, hex_lower, random_bytes_32, random_bytes_32_from, sha256, sha256_digest};
use rand::rngs::StdRng;
use vstd::set_lib::{lemma_len_subset, lemma_set_disjoint_lens};
use crate::order::{bytes_less, bytes_lt, lemma_bytes_lt_irreflexive, lemma_bytes_lt_total, lemma_bytes_lt_transitive};

verus! {

/// Bytes of the fingerprint digest that make up a device id (32 hex digits).
pub const DEVICE_ID_DIGEST_BYTES: usize = 16;

/// Characters in a token: 32 bytes in unpadded base64url.
pub const SESSION_TOKEN_STR_LEN: usize = 43;

/// The device id of a fingerprint: the first 16 bytes of the SHA-256 of its
/// UTF-8 bytes, in lowercase hex.
pub open spec fn device_id_of(fp: Seq<char>) -> Seq<char> {
    hex_lower(sha256(encode_utf8(fp)).subrange(0, DEVICE_ID_DIGEST_BYTES as int))
}

/// The fingerprint a browser reports for itself.
#[derive(Debug, Clone, PartialEq, Eq, Hash)]
pub struct DeviceFingerprint(pub String);

impl View for DeviceFingerprint {
    type V = Seq<char>;

    open spec fn view(&self) -> Seq<char> {
        self.0@
    }
}

impl From<String> for DeviceFingerprint {
    fn from(s: String) -> (r: DeviceFingerprint) {
        DeviceFingerprint(s)
    }
}

impl vstd::std_specs::convert::FromSpecImpl<String> for DeviceFingerprint {
    open spec fn obeys_from_spec() -> bool {
        true
    }

    open spec fn from_spec(v: String) -> DeviceFingerprint {
        DeviceFingerprint(v)
    }
}

impl<'a> From<&'a str> for DeviceFingerprint {
    fn from(s: &'a str) -> (r: DeviceFingerprint)
        ensures
            r@ == s@,
    {
        DeviceFingerprint(s.to_owned())
    }
}

impl<'a> vstd::std_specs::convert::FromSpecImpl<&'a str> for DeviceFingerprint {
    open spec fn obeys_from_spec() -> bool {
        false
    }

    open spec fn from_spec(v: &'a str) -> DeviceFingerprint {
        arbitrary()
    }
}

/// A session token. It has no `Debug`, so it cannot slip into a log line.
#[derive(Clone, PartialEq, Eq, Hash)]
pub struct SessionToken(String);

impl View for SessionToken {
    type V = Seq<char>;

    closed spec fn view(&self) -> Seq<char> {
        self.0@
    }
}

impl SessionToken {
    /// The token's text.
    pub fn as_str(&self) -> (s: &str)
        ensures
            s@ == self@,
    {
        self.0.as_str()
    }

    /// Wraps text already known to be a token.
    pub fn from_validated(s: String) -> (t: SessionToken)
        ensures
            t@ == s@,
    {
        SessionToken(s)
    }

    fn duplicate(&self) -> (t: SessionToken)
        ensures
            t == *self,
    {
        SessionToken(self.0.clone())
    }
}

/// A session as plain values.
pub struct SessionModel {
    pub token: Seq<char>,
    pub device_id: Seq<char>,
    pub device_label: Seq<char>,
    pub paired_at: u64,
    pub last_seen: u64,
}

/// One paired device.
#[derive(Clone, PartialEq, Eq)]
pub struct Session {
    /// The token issued to the device.
    pub token: SessionToken,
    /// `device_id_of` its fingerprint.
    pub device_id: String,
    /// What the device calls itself.
    pub device_label: String,
    /// When it paired (ms since the Unix epoch).
    pub paired_at: u64,
    /// When it was last active (ms since the Unix epoch).
    pub last_seen: u64,
}

impl View for Session {
    type V = SessionModel;

    open spec fn view(&self) -> SessionModel {
        SessionModel {
            token: self.token@,
            device_id: self.device_id@,
            device_label: self.device_label@,
            paired_at: self.paired_at,
            last_seen: self.last_seen,
        }
    }
}

impl Session {
    fn duplicate(&self) -> (s: Session)
        ensures
            s == *self,
    {
        Session {
            token: self.token.duplicate(),
            device_id: self.device_id.clone(),
            device_label: self.device_label.clone(),
            paired_at: self.paired_at,
            last_seen: self.last_seen,
        }
    }
}

/// Listing order: by pairing time, then by device id, compared as `str`.
pub open spec fn session_before(a: SessionModel, b: SessionModel) -> bool {
    a.paired_at < b.paired_at || (a.paired_at == b.paired_at && bytes_lt(
        encode_utf8(a.device_id),
        encode_utf8(b.device_id),
    ))
}

proof fn lemma_session_before_order(a: SessionModel, b: SessionModel, c: SessionModel)
    ensures
        !session_before(a, a),
        !(session_before(a, b) && session_before(b, a)),
        session_before(a, b) && session_before(b, c) ==> session_before(a, c),
        !session_before(b, a) && !session_before(c, b) ==> !session_before(c, a),
{
    let ea = encode_utf8(a.device_id);
    let eb = encode_utf8(b.device_id);
    let ec = encode_utf8(c.device_id);
    lemma_bytes_lt_irreflexive(ea);
    lemma_bytes_lt_total(ea, eb);
    lemma_bytes_lt_total(eb, ec);
    lemma_bytes_lt_total(ea, ec);
    if bytes_lt(ea, eb) && bytes_lt(eb, ec) {
        lemma_bytes_lt_transitive(ea, eb, ec);
    }
    if bytes_lt(ec, eb) && bytes_lt(eb, ea) {
        lemma_bytes_lt_transitive(ec, eb, ea);
    }
    if !bytes_lt(eb, ea) && !bytes_lt(ec, eb) && bytes_lt(ec, ea) {
        if eb == ea {
        } else if ec == eb {
        } else {
            lemma_bytes_lt_transitive(ec, ea, eb);
        }
    }
}

/// Why a token was refused.
#[derive(Debug, Clone, PartialEq, Eq, Structural)]
pub enum AuthError {
    /// Never issued by this registry.
    NotFound,
    /// Issued, then revoked.
    Revoked,
}

/// A live session together with the fingerprint it was issued to.
pub struct LiveSession {
    pub fingerprint: Seq<char>,
    pub session: SessionModel,
}

struct SessionEntry {
    fp: DeviceFingerprint,
    session: Session,
}

/// Registry of issued sessions.
pub struct SessionRegistry {
    entries: Vec<SessionEntry>,
    revoked: Vec<String>,
}

spec fn entry_pair(e: SessionEntry) -> (Seq<char>, LiveSession) {
    (e.session.token@, LiveSession { fingerprint: e.fp@, session: e.session@ })
}

spec fn entry_pairs(es: Seq<SessionEntry>) -> Seq<(Seq<char>, LiveSession)> {
    es.map_values(|e: SessionEntry| entry_pair(e))
}

spec fn string_set(v: Seq<String>) -> Set<Seq<char>> {
    Set::new(|t: Seq<char>| exists|i: int| 0 <= i < v.len() && v[i]@ == t)
}

/// The token `t` whose session with model `m`... (a session is stored under its own token).
spec fn entries_ok(es: Seq<SessionEntry>) -> bool {
    &&& keys_distinct(entry_pairs(es))
    &&& forall|i: int|
        0 <= i < es.len() ==> (#[trigger] es[i]).session.device_id@ == device_id_of(es[i].fp@)
}

impl SessionRegistry {
    /// Live sessions by token.
    pub closed spec fn live(&self) -> Map<Seq<char>, LiveSession> {
        assoc_map(entry_pairs(self.entries@))
    }

    /// Tokens that were revoked.
    pub closed spec fn revoked_tokens(&self) -> Set<Seq<char>> {
        string_set(self.revoked@)
    }

    /// Tokens are distinct; every session's device id is derived from its
    /// fingerprint and is stored under its own token.
    pub closed spec fn wf(&self) -> bool {
        entries_ok(self.entries@)
    }

    /// Facts that hold of every well-formed registry.
    pub proof fn lemma_wf(&self)
        requires
            self.wf(),
        ensures
            self.live().dom().finite(),
            forall|t: Seq<char>|
                #[trigger] self.live().contains_key(t) ==> self.live()[t].session.token == t
                    && self.live()[t].session.device_id == device_id_of(
                    self.live()[t].fingerprint,
                ),
    {
        lemma_len(entry_pairs(self.entries@));
        assert forall|t: Seq<char>| #[trigger] self.live().contains_key(t) implies self.live()[t].session.token
            == t && self.live()[t].session.device_id == device_id_of(self.live()[t].fingerprint) by {
            let ps = entry_pairs(self.entries@);
            let j = choose|j: int| 0 <= j < ps.len() && ps[j].0 == t;
            lemma_entry(ps, j);
            assert(self.entries@[j].session.device_id@ == device_id_of(self.entries@[j].fp@));
        }
    }

    /// An empty registry.
    pub fn new() -> (r: SessionRegistry)
        ensures
            r.wf(),
            r.live() == Map::<Seq<char>, LiveSession>::empty(),
            r.revoked_tokens() == Set::<Seq<char>>::empty(),
    {
        let r = SessionRegistry { entries: Vec::new(), revoked: Vec::new() };
        assert(r.live() =~= Map::<Seq<char>, LiveSession>::empty());
        assert(r.revoked_tokens() =~= Set::<Seq<char>>::empty());
        r
    }

    fn find(&self, token: &String) -> (r: Option<usize>)
        requires
            self.wf(),
        ensures
            r is None <==> !self.live().contains_key(token@),
            r matches Some(i) ==> i < self.entries@.len() && self.entries@[i as int].session.token@
                == token@,
    {
        let n = self.entries.len();
        let mut i: usize = 0;
        while i < n
            invariant
                n == self.entries@.len(),
                i <= n,
                forall|k: int| 0 <= k < i ==> self.entries@[k].session.token@ != token@,
            decreases n - i,
        {
            if self.entries[i].session.token.0 == *token {
                assert(entry_pairs(self.entries@)[i as int].0 == token@);
                return Some(i);
            }
            i = i + 1;
        }
        proof {
            let ps = entry_pairs(self.entries@);
            if self.live().contains_key(token@) {
                let k = choose|k: int| 0 <= k < ps.len() && ps[k].0 == token@;
                assert(ps[k].0 == self.entries@[k].session.token@);
            }
        }
        None
    }

    fn is_revoked(&self, token: &String) -> (r: bool)
        ensures
            r == self.revoked_tokens().contains(token@),
    {
        let n = self.revoked.len();
        let mut i: usize = 0;
        while i < n
            invariant
                n == self.revoked@.len(),
                i <= n,
                forall|k: int| 0 <= k < i ==> self.revoked@[k]@ != token@,
            decreases n - i,
        {
            if self.revoked[i] == *token {
                return true;
            }
            i = i + 1;
        }
        false
    }

    fn mark_revoked(&mut self, token: &String)
        ensures
            final(self).entries == old(self).entries,
            final(self).revoked_tokens() == old(self).revoked_tokens().insert(token@),
    {
        if !self.is_revoked(token) {
            let ghost before = self.revoked@;
            self.revoked.push(token.clone());
            assert(self.revoked_tokens() =~= string_set(before).insert(token@)) by {
                assert forall|t: Seq<char>| string_set(before).insert(token@).contains(t) implies #[trigger] self.revoked_tokens().contains(t) by {
                    if t == token@ {
                        assert(self.revoked@[before.len() as int]@ == t);
                    } else {
                        let k = choose|k: int| 0 <= k < before.len() && before[k]@ == t;
                        assert(self.revoked@[k]@ == t);
                    }
                }
            }
        } else {
            assert(self.revoked_tokens() =~= self.revoked_tokens().insert(token@));
        }
    }

    fn unmark_revoked(&mut self, token: &String)
        ensures
            final(self).entries == old(self).entries,
            final(self).revoked_tokens() == old(self).revoked_tokens().remove(token@),
    {
        let ghost before = self.revoked@;
        let mut kept: Vec<String> = Vec::new();
        let n = self.revoked.len();
        let mut i: usize = 0;
        while i < n
            invariant
                n == self.revoked@.len(),
                self.revoked@ == before,
                i <= n,
                forall|t: Seq<char>|
                    #[trigger] string_set(kept@).contains(t) <==> t != token@ && exists|m: int|
                        0 <= m < i && (#[trigger] before[m])@ == t,
            decreases n - i,
        {
            let ghost prev = kept@;
            if self.revoked[i] != *token {
                kept.push(self.revoked[i].clone());
            }
            assert forall|t: Seq<char>| #[trigger] string_set(kept@).contains(t) <==> t != token@
                && exists|m: int| 0 <= m < i + 1 && (#[trigger] before[m])@ == t by {
                if string_set(kept@).contains(t) {
                    let k = choose|k: int| 0 <= k < kept@.len() && (#[trigger] kept@[k])@ == t;
                    if k < prev.len() {
                        assert(prev[k]@ == t);
                        assert(string_set(prev).contains(t));
                    } else {
                        assert(before[i as int]@ == t);
                    }
                }
                if t != token@ && exists|m: int| 0 <= m < i + 1 && (#[trigger] before[m])@ == t {
                    let m = choose|m: int| 0 <= m < i + 1 && (#[trigger] before[m])@ == t;
                    if m < i {
                        assert(string_set(prev).contains(t));
                        let k = choose|k: int| 0 <= k < prev.len() && (#[trigger] prev[k])@ == t;
                        assert(kept@[k]@ == t);
                    } else {
                        assert(kept@[kept@.len() - 1]@ == t);
                    }
                }
            }
            i = i + 1;
        }
        assert(string_set(kept@) =~= string_set(before).remove(token@));
        self.revoked = kept;
    }

    /// Issues a fresh random token to `fp` at wall-clock time `now`; earlier
    /// tokens of the same device stay valid.
    pub fn issue(&mut self, fp: DeviceFingerprint, label: String, now: u64) -> (t: SessionToken)
        requires
            old(self).wf(),
        ensures
            final(self).wf(),
            exists|bytes: Seq<u8>| bytes.len() == 32 && t@ == base64url_text(bytes),
            t@.len() == 43,
            forall|i: int| 0 <= i < t@.len() ==> is_base64url_char(#[trigger] t@[i]),
            final(self).live() == old(self).live().insert(t@, issued_session(t@, fp@, label@, now)),
            final(self).revoked_tokens() == old(self).revoked_tokens().remove(t@),
    {
        let token = generate_token();
        self.insert_token(token, fp, label, now)
    }

    /// Issues a token made of 32 bytes drawn from `rng` (so a seeded
    /// generator gives the same token again); otherwise as `issue`.
    pub fn issue_with_rng(&mut self, fp: DeviceFingerprint, label: String, now: u64, rng: &mut StdRng) -> (t: SessionToken)
        requires
            old(self).wf(),
        ensures
            final(self).wf(),
            exists|bytes: Seq<u8>| bytes.len() == 32 && t@ == base64url_text(bytes),
            t@.len() == 43,
            forall|i: int| 0 <= i < t@.len() ==> is_base64url_char(#[trigger] t@[i]),
            final(self).live() == old(self).live().insert(t@, issued_session(t@, fp@, label@, now)),
            final(self).revoked_tokens() == old(self).revoked_tokens().remove(t@),
    {
        let bytes = random_bytes_32_from(rng);
        let s = base64url_encode(bytes.as_slice());
        proof {
            lemma_base64url_text(bytes@);
        }
        let token = SessionToken::from_validated(s);
        self.insert_token(token, fp, label, now)
    }

    fn insert_token(&mut self, token: SessionToken, fp: DeviceFingerprint, label: String, now: u64) -> (t: SessionToken)
        requires
            old(self).wf(),
        ensures
            final(self).wf(),
            t@ == token@,
            final(self).live() == old(self).live().insert(t@, issued_session(t@, fp@, label@, now)),
            final(self).revoked_tokens() == old(self).revoked_tokens().remove(t@),
    {
        let device_id = derive_device_id(&fp);
        let session = Session {
            token: token.duplicate(),
            device_id,
            device_label: label,
            paired_at: now,
            last_seen: now,
        };
        let ghost fpv = fp@;
        let entry = SessionEntry { fp, session };
        let ghost ps = entry_pairs(self.entries@);
        match self.find(&token.0) {
            Some(i) => {
                proof {
                    lemma_set(ps, i as int, entry_pair(entry).1);
                    assert(entry_pairs(self.entries@.update(i as int, entry)) =~= ps.update(
                        i as int,
                        (ps[i as int].0, entry_pair(entry).1),
                    ));
                    assert forall|k: int| 0 <= k < self.entries@.update(i as int, entry).len() implies (#[trigger] self.entries@.update(i as int, entry)[k]).session.device_id@
                        == device_id_of(self.entries@.update(i as int, entry)[k].fp@) by {
                        if k != i {
                            assert(self.entries@[k].session.device_id@ == device_id_of(self.entries@[k].fp@));
                        }
                    }
                }
                self.entries.set(i, entry);
            },
            None => {
                proof {
                    lemma_push(ps, token@, entry_pair(entry).1);
                    assert(entry_pairs(self.entries@.push(entry)) =~= ps.push(entry_pair(entry)));
                    assert forall|k: int| 0 <= k < self.entries@.push(entry).len() implies (#[trigger] self.entries@.push(entry)[k]).session.device_id@
                        == device_id_of(self.entries@.push(entry)[k].fp@) by {
                        if k < self.entries@.len() {
                            assert(self.entries@[k].session.device_id@ == device_id_of(self.entries@[k].fp@));
                        }
                    }
                }
                self.entries.push(entry);
            },
        }
        self.unmark_revoked(&token.0);
        token
    }

    /// Checks a token: its session if live, else whether it was revoked or
    /// never issued.
    pub fn validate(&self, token: &SessionToken) -> (r: Result<Session, AuthError>)
        requires
            self.wf(),
        ensures
            match r {
                Ok(s) => self.live().contains_key(token@) && s@ == self.live()[token@].session,
                Err(AuthError::Revoked) => !self.live().contains_key(token@)
                    && self.revoked_tokens().contains(token@),
                Err(AuthError::NotFound) => !self.live().contains_key(token@)
                    && !self.revoked_tokens().contains(token@),
            },
    {
        match self.find(&token.0) {
            Some(i) => {
                proof {
                    lemma_entry(entry_pairs(self.entries@), i as int);
                }
                Ok(self.entries[i].session.duplicate())
            },
            None => {
                if self.is_revoked(&token.0) {
                    Err(AuthError::Revoked)
                } else {
                    Err(AuthError::NotFound)
                }
            },
        }
    }

    /// Records activity of a live session at `now`; any other token is ignored.
    pub fn touch(&mut self, token: &SessionToken, now: u64)
        requires
            old(self).wf(),
        ensures
            final(self).wf(),
            final(self).revoked_tokens() == old(self).revoked_tokens(),
            final(self).live() == if old(self).live().contains_key(token@) {
                old(self).live().insert(
                    token@,
                    LiveSession {
                        fingerprint: old(self).live()[token@].fingerprint,
                        session: SessionModel {
                            last_seen: now,
                            ..old(self).live()[token@].session
                        },
                    },
                )
            } else {
                old(self).live()
            },
    {
        match self.find(&token.0) {
            Some(i) => {
                let ghost ps = entry_pairs(self.entries@);
                proof {
                    lemma_entry(ps, i as int);
                }
                let mut e = self.entries.remove(i);
                e.session.last_seen = now;
                self.entries.insert(i, e);
                proof {
                    lemma_set(ps, i as int, entry_pair(e).1);
                    assert(entry_pairs(self.entries@) =~= ps.update(
                        i as int,
                        (ps[i as int].0, entry_pair(e).1),
                    ));
                    assert(self.entries@ =~= old(self).entries@.update(i as int, e));
                    assert forall|k: int| 0 <= k < self.entries@.len() implies (#[trigger] self.entries@[k]).session.device_id@
                        == device_id_of(self.entries@[k].fp@) by {
                        assert(old(self).entries@[k].session.device_id@ == device_id_of(old(self).entries@[k].fp@));
                    }
                }
            },
            None => {},
        }
    }

    /// Revokes one token: it stops being live and is remembered as revoked.
    /// Other tokens of the same device are untouched.
    pub fn revoke(&mut self, token: &SessionToken)
        requires
            old(self).wf(),
        ensures
            final(self).wf(),
            final(self).live() == old(self).live().remove(token@),
            final(self).revoked_tokens() == old(self).revoked_tokens().insert(token@),
    {
        match self.find(&token.0) {
            Some(i) => {
                let ghost ps = entry_pairs(self.entries@);
                proof {
                    lemma_remove(ps, i as int);
                    assert(entry_pairs(self.entries@.remove(i as int)) =~= ps.remove(i as int));
                    assert forall|k: int| 0 <= k < self.entries@.remove(i as int).len() implies (#[trigger] self.entries@.remove(i as int)[k]).session.device_id@
                        == device_id_of(self.entries@.remove(i as int)[k].fp@) by {
                        if k < i {
                            assert(self.entries@[k].session.device_id@ == device_id_of(self.entries@[k].fp@));
                        } else {
                            assert(self.entries@[k + 1].session.device_id@ == device_id_of(self.entries@[k + 1].fp@));
                        }
                    }
                }
                self.entries.remove(i);
            },
            None => {
                assert(self.live() =~= self.live().remove(token@));
            },
        }
        self.mark_revoked(&token.0);
    }

    /// Revokes every live token issued to `fp`; other devices keep theirs.
    pub fn revoke_device(&mut self, fp: &DeviceFingerprint)
        requires
            old(self).wf(),
        ensures
            final(self).wf(),
            forall|t: Seq<char>|
                #[trigger] final(self).live().contains_key(t) <==> old(self).live().contains_key(t)
                    && old(self).live()[t].fingerprint != fp@,
            forall|t: Seq<char>|
                #[trigger] final(self).live().contains_key(t) ==> final(self).live()[t] == old(
                    self,
                ).live()[t],
            forall|t: Seq<char>|
                #[trigger] final(self).revoked_tokens().contains(t) <==> old(
                    self,
                ).revoked_tokens().contains(t) || (old(self).live().contains_key(t) && old(
                    self,
                ).live()[t].fingerprint == fp@),
    {
        let ghost live0 = self.live();
        let ghost rev0 = self.revoked_tokens();
        let mut i: usize = 0;
        while i < self.entries.len()
            invariant
                self.wf(),
                i <= self.entries@.len(),
                forall|k: int| 0 <= k < i ==> (#[trigger] self.entries@[k]).fp@ != fp@,
                forall|t: Seq<char>|
                    #[trigger] self.live().contains_key(t) ==> live0.contains_key(t) && self.live()[t]
                        == live0[t],
                forall|t: Seq<char>|
                    live0.contains_key(t) && live0[t].fingerprint != fp@ ==> #[trigger] self.live().contains_key(t),
                forall|t: Seq<char>|
                    live0.contains_key(t) && live0[t].fingerprint == fp@ && !#[trigger] self.live().contains_key(t)
                        ==> self.revoked_tokens().contains(t),
                forall|t: Seq<char>|
                    #[trigger] self.revoked_tokens().contains(t) ==> rev0.contains(t) || (live0.contains_key(t)
                        && live0[t].fingerprint == fp@),
                forall|t: Seq<char>| rev0.contains(t) ==> #[trigger] self.revoked_tokens().contains(t),
            decreases self.entries@.len() - i,
        {
            let ghost ps = entry_pairs(self.entries@);
            proof {
                lemma_entry(ps, i as int);
            }
            if self.entries[i].fp.0 == fp.0 {
                let tok = self.entries[i].session.token.0.clone();
                let ghost lb = self.live();
                let ghost rb = self.revoked_tokens();
                proof {
                    lemma_remove(ps, i as int);
                    assert(entry_pairs(self.entries@.remove(i as int)) =~= ps.remove(i as int));
                    assert forall|k: int| 0 <= k < self.entries@.remove(i as int).len() implies (#[trigger] self.entries@.remove(i as int)[k]).session.device_id@
                        == device_id_of(self.entries@.remove(i as int)[k].fp@) by {
                        if k < i {
                            assert(self.entries@[k].session.device_id@ == device_id_of(self.entries@[k].fp@));
                        } else {
                            assert(self.entries@[k + 1].session.device_id@ == device_id_of(self.entries@[k + 1].fp@));
                        }
                    }
                    assert(lb[tok@].fingerprint == fp@);
                }
                let ghost before = self.entries@;
                self.entries.remove(i);
                assert(self.live() == lb.remove(tok@));
                assert forall|k: int| 0 <= k < i implies (#[trigger] self.entries@[k]).fp@ != fp@ by {
                    assert(self.entries@[k] == before[k]);
                }
                self.mark_revoked(&tok);
                assert(self.revoked_tokens() == rb.insert(tok@));
                assert(self.live() == lb.remove(tok@));
                assert forall|t: Seq<char>| live0.contains_key(t) && live0[t].fingerprint != fp@ implies #[trigger] self.live().contains_key(t) by {
                    assert(lb.contains_key(t));
                }
                assert forall|t: Seq<char>| #[trigger] self.live().contains_key(t) implies live0.contains_key(t) && self.live()[t]
                        == live0[t] by {
                    assert(lb.contains_key(t));
                }
                assert forall|t: Seq<char>| live0.contains_key(t) && live0[t].fingerprint == fp@ && !#[trigger] self.live().contains_key(t)
                        implies self.revoked_tokens().contains(t) by {
                    if t != tok@ {
                        assert(!lb.contains_key(t));
                    }
                }
                assert forall|t: Seq<char>| #[trigger] self.revoked_tokens().contains(t) implies rev0.contains(t) || (live0.contains_key(t)
                        && live0[t].fingerprint == fp@) by {
                    if t == tok@ {
                        assert(lb.contains_key(t));
                    } else {
                        assert(rb.contains(t));
                    }
                }
            } else {
                i = i + 1;
            }
        }
        assert forall|t: Seq<char>| #[trigger] self.live().contains_key(t) implies live0[t].fingerprint != fp@ by {
            let ps = entry_pairs(self.entries@);
            let j = choose|j: int| 0 <= j < ps.len() && ps[j].0 == t;
            lemma_entry(ps, j);
            assert(self.entries@[j].fp@ != fp@);
        }
        assert forall|t: Seq<char>| #[trigger] self.revoked_tokens().contains(t) <==> rev0.contains(t) || (
            live0.contains_key(t) && live0[t].fingerprint == fp@) by {
            if live0.contains_key(t) && live0[t].fingerprint == fp@ && self.live().contains_key(t) {
                assert(live0[t].fingerprint != fp@);
            }
        }
    }

    /// All live sessions, each once, ordered by pairing time and then by
    /// device id.
    pub fn list_sessions(&self) -> (r: Vec<Session>)
        requires
            self.wf(),
        ensures
            r@.len() == self.live().dom().len(),
            forall|i: int|
                0 <= i < r@.len() ==> self.live().contains_key((#[trigger] r@[i]).token@)
                    && r@[i]@ == self.live()[r@[i].token@].session,
            forall|i: int, j: int|
                #![trigger r@[i], r@[j]]
                0 <= i < j < r@.len() ==> r@[i].token@ != r@[j].token@ && !session_before(
                    r@[j]@,
                    r@[i]@,
                ),
    {
        let ghost ps = entry_pairs(self.entries@);
        let n = self.entries.len();
        let mut out: Vec<Session> = Vec::new();
        let mut i: usize = 0;
        while i < n
            invariant
                self.wf(),
                ps == entry_pairs(self.entries@),
                n == self.entries@.len(),
                i <= n,
                out@.len() == i,
                forall|k: int|
                    0 <= k < out@.len() ==> exists|m: int|
                        0 <= m < i && (#[trigger] out@[k])@ == self.entries@[m].session@,
                forall|a: int, b: int|
                    0 <= a < b < out@.len() ==> out@[a].token@ != out@[b].token@,
                sorted_sessions(out@),
            decreases n - i,
        {
            let s = self.entries[i].session.duplicate();
            let ghost before = out@;
            proof {
                assert forall|k: int| 0 <= k < before.len() implies before[k].token@ != s.token@ by {
                    let m = choose|m: int| 0 <= m < i && before[k]@ == self.entries@[m].session@;
                    assert(ps[m].0 == self.entries@[m].session.token@);
                    assert(ps[i as int].0 == s.token@);
                }
            }
            insert_sorted(&mut out, s);
            proof {
                let p = choose|p: int| 0 <= p <= before.len() && out@ == before.insert(p, s);
                assert forall|a: int, b: int| 0 <= a < b < out@.len() implies out@[a].token@ != out@[b].token@ by {
                    if a < p && b == p {
                    } else if a == p {
                        assert(out@[b] == before[b - 1]);
                    } else if b < p {
                        assert(out@[a] == before[a] && out@[b] == before[b]);
                    } else if a < p {
                        assert(out@[a] == before[a] && out@[b] == before[b - 1]);
                    } else {
                        assert(out@[a] == before[a - 1] && out@[b] == before[b - 1]);
                    }
                }
                assert forall|k: int| 0 <= k < out@.len() implies exists|m: int|
                    0 <= m < i + 1 && (#[trigger] out@[k])@ == self.entries@[m].session@ by {
                    if k == p {
                        assert(out@[k]@ == self.entries@[i as int].session@);
                    } else if k < p {
                        assert(out@[k] == before[k]);
                    } else {
                        assert(out@[k] == before[k - 1]);
                    }
                }
            }
            i = i + 1;
        }
        proof {
            lemma_len(ps);
            assert forall|k: int| 0 <= k < out@.len() implies self.live().contains_key((#[trigger] out@[k]).token@)
                && out@[k]@ == self.live()[out@[k].token@].session by {
                let m = choose|m: int| 0 <= m < n && out@[k]@ == self.entries@[m].session@;
                lemma_entry(ps, m);
            }
        }
        out
    }

    /// Number of live sessions.
    pub fn len(&self) -> (r: usize)
        requires
            self.wf(),
        ensures
            r == self.live().dom().len(),
    {
        proof {
            lemma_len(entry_pairs(self.entries@));
        }
        self.entries.len()
    }

    /// Whether no session is live.
    pub fn is_empty(&self) -> (r: bool)
        requires
            self.wf(),
        ensures
            r == (self.live().dom().len() == 0),
    {
        self.len() == 0
    }
}

/// No session sorts before an earlier one.
pub open spec fn sorted_sessions(v: Seq<Session>) -> bool {
    forall|a: int, b: int| 0 <= a < b < v.len() ==> !session_before(#[trigger] v[b]@, #[trigger] v[a]@)
}

/// Inserts `s` after every session that does not sort after it.
fn insert_sorted(out: &mut Vec<Session>, s: Session)
    requires
        sorted_sessions(old(out)@),
    ensures
        sorted_sessions(final(out)@),
        exists|p: int| 0 <= p <= old(out)@.len() && final(out)@ == old(out)@.insert(p, s),
{
    let ghost sm = s@;
    let mut p: usize = out.len();
    while p > 0 && sorts_after(&out[p - 1], &s)
        invariant
            sm == s@,
            p <= out@.len(),
            forall|k: int| p <= k < out@.len() ==> session_before(sm, (#[trigger] out@[k])@),
        decreases p,
    {
        p = p - 1;
    }
    let ghost before = out@;
    proof {
        assert forall|k: int| 0 <= k < p implies !session_before(sm, #[trigger] before[k]@) by {
            lemma_session_before_order(before[k]@, before[p - 1]@, sm);
        }
    }
    out.insert(p, s);
    proof {
        assert forall|a: int, b: int| 0 <= a < b < out@.len() implies !session_before(
            #[trigger] out@[b]@,
            #[trigger] out@[a]@,
        ) by {
            if a < p && b == p {
            } else if a == p {
                assert(out@[b] == before[b - 1]);
                lemma_session_before_order(sm, out@[b]@, sm);
            } else if b < p {
                assert(out@[a] == before[a] && out@[b] == before[b]);
            } else if a < p {
                assert(out@[a] == before[a] && out@[b] == before[b - 1]);
            } else {
                assert(out@[a] == before[a - 1] && out@[b] == before[b - 1]);
            }
        }
        assert(out@ == before.insert(p as int, s));
    }
}

/// Whether `b` sorts strictly before `a`.
fn sorts_after(a: &Session, b: &Session) -> (r: bool)
    ensures
        r == session_before(b@, a@),
{
    b.paired_at < a.paired_at || (b.paired_at == a.paired_at && bytes_less(
        b.device_id.as_str().as_bytes(),
        a.device_id.as_str().as_bytes(),
    ))
}

/// A fresh token: 32 random bytes in unpadded base64url.
fn generate_token() -> (t: SessionToken)
    ensures
        exists|bytes: Seq<u8>| bytes.len() == 32 && t@ == base64url_text(bytes),
        t@.len() == 43,
        forall|i: int| 0 <= i < t@.len() ==> is_base64url_char(#[trigger] t@[i]),
{
    let bytes = random_bytes_32();
    let s = base64url_encode(bytes.as_slice());
    proof {
        lemma_base64url_text(bytes@);
    }
    SessionToken::from_validated(s)
}

/// The device id of a fingerprint (see [`device_id_of`]).
pub fn derive_device_id(fp: &DeviceFingerprint) -> (id: String)
    ensures
        id@ == device_id_of(fp@),
{
    let mut digest = sha256_digest(fp.0.as_str().as_bytes());
    digest.truncate(DEVICE_ID_DIGEST_BYTES);
    hex_encode(digest.as_slice())
}

impl Default for SessionRegistry {
    /// The same as `new`.
    fn default() -> (r: Self)
        ensures
            r.wf(),
            r.live() == Map::<Seq<char>, LiveSession>::empty(),
            r.revoked_tokens() == Set::<Seq<char>>::empty(),
    {
        SessionRegistry::new()
    }
}


/// The live session `issue` creates for token `t`: device `fp`, `label`,
/// paired and last seen at `now`.
pub open spec fn issued_session(t: Seq<char>, fp: Seq<char>, label: Seq<char>, now: u64) -> LiveSession {
    LiveSession {
        fingerprint: fp,
        session: SessionModel {
            token: t,
            device_id: device_id_of(fp),
            device_label: label,
            paired_at: now,
            last_seen: now,
        },
    }
}

/// A token just issued validates to the session it created, and issuing
/// leaves every other session as it was.
pub proof fn lemma_issue_then_validate(
    before: SessionRegistry,
    after: SessionRegistry,
    t: Seq<char>,
    fp: Seq<char>,
    label: Seq<char>,
    now: u64,
)
    requires
        after.live() == before.live().insert(t, issued_session(t, fp, label, now)),
    ensures
        after.live().contains_key(t),
        after.live()[t].session.token == t,
        after.live()[t].session.device_id == device_id_of(fp),
        after.live()[t].session.device_label == label,
        after.live()[t].session.paired_at == now,
        after.live()[t].session.last_seen == now,
        forall|u: Seq<char>|
            u != t ==> (#[trigger] after.live().contains_key(u) == before.live().contains_key(u)
                && (before.live().contains_key(u) ==> after.live()[u] == before.live()[u])),
{
}

/// A revoked token no longer validates and is reported as revoked; the
/// other tokens, of the same device or not, stay as they were.
pub proof fn lemma_revoke_then_validate(before: SessionRegistry, after: SessionRegistry, t: Seq<char>)
    requires
        after.live() == before.live().remove(t),
        after.revoked_tokens() == before.revoked_tokens().insert(t),
    ensures
        !after.live().contains_key(t),
        after.revoked_tokens().contains(t),
        forall|u: Seq<char>|
            u != t ==> (#[trigger] after.live().contains_key(u) == before.live().contains_key(u)
                && (before.live().contains_key(u) ==> after.live()[u] == before.live()[u])),
{
}

/// The live tokens of `live` that were issued to the fingerprint `fp`.
pub open spec fn device_tokens(live: Map<Seq<char>, LiveSession>, fp: Seq<char>) -> Set<Seq<char>> {
    Set::new(|t: Seq<char>| live.contains_key(t) && live[t].fingerprint == fp)
}

/// How `revoke_device(fp)` takes `before` to `after` (its contract).
pub open spec fn revoke_device_step(before: SessionRegistry, after: SessionRegistry, fp: Seq<char>) -> bool {
    &&& forall|t: Seq<char>|
        #[trigger] after.live().contains_key(t) <==> before.live().contains_key(t)
            && before.live()[t].fingerprint != fp
    &&& forall|t: Seq<char>| #[trigger] after.live().contains_key(t) ==> after.live()[t] == before.live()[t]
    &&& forall|t: Seq<char>|
        #[trigger] after.revoked_tokens().contains(t) <==> before.revoked_tokens().contains(t) || (
        before.live().contains_key(t) && before.live()[t].fingerprint == fp)
}

/// Revoking a device ends exactly its live sessions: each of its tokens is
/// then refused as revoked, the number of live sessions drops by their
/// number, the other devices keep theirs as they were, and revoking the same
/// device again changes nothing.
pub proof fn lemma_revoke_device_counts(
    before: SessionRegistry,
    after: SessionRegistry,
    again: SessionRegistry,
    fp: Seq<char>,
)
    requires
        before.wf(),
        after.wf(),
        revoke_device_step(before, after, fp),
        revoke_device_step(after, again, fp),
    ensures
        after.live().dom().len() == before.live().dom().len() - device_tokens(before.live(), fp).len(),
        forall|t: Seq<char>|
            #[trigger] device_tokens(before.live(), fp).contains(t) ==> !after.live().contains_key(t)
                && after.revoked_tokens().contains(t),
        forall|t: Seq<char>|
            before.live().contains_key(t) && before.live()[t].fingerprint != fp ==> #[trigger] after.live().contains_key(t)
                && after.live()[t] == before.live()[t],
        again.live() == after.live(),
        again.revoked_tokens() == after.revoked_tokens(),
{
    before.lemma_wf();
    after.lemma_wf();
    let dom0 = before.live().dom();
    let dom1 = after.live().dom();
    let ts = device_tokens(before.live(), fp);
    assert(dom0 =~= dom1 + ts);
    assert(dom1.disjoint(ts));
    lemma_len_subset(ts, dom0);
    lemma_set_disjoint_lens(dom1, ts);
    assert(again.live() =~= after.live()) by {
        assert forall|t: Seq<char>| #[trigger] again.live().contains_key(t) implies after.live().contains_key(t)
            && again.live()[t] == after.live()[t] by {}
        assert forall|t: Seq<char>| #[trigger] after.live().contains_key(t) implies again.live().contains_key(t) by {}
    }
    assert(again.revoked_tokens() =~= after.revoked_tokens());
}

/// One call on a registry, as far as validation sees it.
pub enum SessionOp {
    Issue { token: Seq<char>, fp: Seq<char>, label: Seq<char>, now: u64 },
    Revoke { token: Seq<char> },
    RevokeDevice { fp: Seq<char> },
    Touch { token: Seq<char>, now: u64 },
}

/// How the call `op` takes `before` to `after` (the call's contract).
pub open spec fn session_step(before: SessionRegistry, after: SessionRegistry, op: SessionOp) -> bool {
    match op {
        SessionOp::Issue { token, fp, label, now } => after.live() == before.live().insert(
            token,
            issued_session(token, fp, label, now),
        ) && after.revoked_tokens() == before.revoked_tokens().remove(token),
        SessionOp::Revoke { token } => after.live() == before.live().remove(token)
            && after.revoked_tokens() == before.revoked_tokens().insert(token),
        SessionOp::RevokeDevice { fp } => revoke_device_step(before, after, fp),
        SessionOp::Touch { token, now } => after.revoked_tokens() == before.revoked_tokens()
            && after.live() == if before.live().contains_key(token) {
            before.live().insert(
                token,
                LiveSession {
                    fingerprint: before.live()[token].fingerprint,
                    session: SessionModel { last_seen: now, ..before.live()[token].session },
                },
            )
        } else {
            before.live()
        },
    }
}

/// After the calls `ops` on a new registry: the fingerprint `t` is live
/// under, if it was issued and not revoked since (by itself or by its
/// device).
pub open spec fn live_device_of(ops: Seq<SessionOp>, t: Seq<char>) -> Option<Seq<char>>
    decreases ops.len(),
{
    if ops.len() == 0 {
        None
    } else {
        let prev = live_device_of(ops.drop_last(), t);
        match ops.last() {
            SessionOp::Issue { token, fp, .. } => if token == t {
                Some(fp)
            } else {
                prev
            },
            SessionOp::Revoke { token } => if token == t {
                None
            } else {
                prev
            },
            SessionOp::RevokeDevice { fp } => if prev == Some(fp) {
                None
            } else {
                prev
            },
            SessionOp::Touch { .. } => prev,
        }
    }
}

/// After the calls `ops` on a new registry: whether `t` is remembered as
/// revoked (revoked by itself or with its device, and not issued since).
pub open spec fn revoked_after(ops: Seq<SessionOp>, t: Seq<char>) -> bool
    decreases ops.len(),
{
    if ops.len() == 0 {
        false
    } else {
        let prev = revoked_after(ops.drop_last(), t);
        match ops.last() {
            SessionOp::Issue { token, .. } => token != t && prev,
            SessionOp::Revoke { token } => token == t || prev,
            SessionOp::RevokeDevice { fp } => prev || live_device_of(ops.drop_last(), t) == Some(fp),
            SessionOp::Touch { .. } => prev,
        }
    }
}

/// What `validate` answers after any sequence of issue, revoke,
/// revoke-device and touch calls on a new registry: a token is live (and
/// validates to a session under its own token, of the fingerprint it was
/// issued to) exactly when it was issued and not revoked since; a token
/// that is not live is refused as revoked exactly when it was revoked and
/// not issued again since, and as never issued otherwise. `regs[i]` is the
/// registry before call `ops[i]`.
pub proof fn lemma_validate_after_ops(regs: Seq<SessionRegistry>, ops: Seq<SessionOp>, t: Seq<char>)
    requires
        regs.len() == ops.len() + 1,
        forall|i: int| 0 <= i < regs.len() ==> (#[trigger] regs[i]).wf(),
        regs[0].live() == Map::<Seq<char>, LiveSession>::empty(),
        regs[0].revoked_tokens() == Set::<Seq<char>>::empty(),
        forall|i: int| #![trigger ops[i]] 0 <= i < ops.len() ==> session_step(regs[i], regs[i + 1], ops[i]),
    ensures
        regs.last().live().contains_key(t) <==> live_device_of(ops, t) is Some,
        live_device_of(ops, t) matches Some(f) ==> regs.last().live()[t].fingerprint == f
            && regs.last().live()[t].session.token == t,
        regs.last().revoked_tokens().contains(t) <==> revoked_after(ops, t),
    decreases ops.len(),
{
    let last = regs.last();
    last.lemma_wf();
    if ops.len() > 0 {
        let n = ops.len() - 1;
        let rs = regs.drop_last();
        let os = ops.drop_last();
        assert forall|i: int| #![trigger os[i]] 0 <= i < os.len() implies session_step(rs[i], rs[i + 1], os[i]) by {
            assert(ops[i] == os[i]);
        }
        assert forall|i: int| 0 <= i < rs.len() implies (#[trigger] rs[i]).wf() by {
            assert(regs[i].wf());
        }
        lemma_validate_after_ops(rs, os, t);
        let before = regs[n];
        assert(rs.last() == before);
        assert(regs[n + 1] == last);
        assert(session_step(before, last, ops[n]));
        assert(ops.last() == ops[n]);
        match ops[n] {
            SessionOp::Issue { token, fp, label, now } => {},
            SessionOp::Revoke { token } => {},
            SessionOp::RevokeDevice { fp } => {
                assert(last.live().contains_key(t) <==> before.live().contains_key(t)
                    && before.live()[t].fingerprint != fp);
                assert(last.revoked_tokens().contains(t) <==> before.revoked_tokens().contains(t) || (
                before.live().contains_key(t) && before.live()[t].fingerprint == fp));
                if last.live().contains_key(t) {
                    assert(last.live()[t] == before.live()[t]);
                }
            },
            SessionOp::Touch { token, now } => {},
        }
    } else {
        assert(regs.last() == regs[0]);
    }
}

} // verus!
