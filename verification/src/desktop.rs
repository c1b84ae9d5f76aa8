//! What the desktop window shows and the decisions behind its commands.

use vstd::prelude::*;
use vstd::string::StringExecFns;
use crate::diagnostics::{MAX_DIAGNOSTICS_LOG_BYTES, tail_start, tail_start_index};
use crate::error_code::{code_text, ErrorCode};
use crate::i18n::{lang_for_locale, lang_from_tag, Lang, decide_lang};
use crate::pairing_code::PairingCode;
use crate::pairing_service::PairingService;
use crate::rfc3339::{rfc3339_from_millis, rfc3339_text};
use crate::rolling_log::{line_bytes, stored_bytes, RollingBuffer};
use crate::session::{derive_device_id, device_id_of, session_before, DeviceFingerprint, LiveSession, Session, SessionModel};
use crate::text::{chars_of, push_char, push_str, string_from_chars, texts};
use crate::lan_filter::{all_addrs, first_occurrences, private_v4, NetworkInterface};
use crate::lan_view::{compute_lan_view, NO_LAN_BANNER_FALLBACK};
use crate::net::{ipv4_from_text, parse_ipv4, IpAddr};

verus! {

/// One paired device as the session list shows it.
#[derive(Debug, Clone)]
pub struct SessionView {
    pub device_id: String,
    pub device_label: String,
    /// The first eight characters of the device id.
    pub fingerprint_short: String,
    pub last_used_at: String,
    pub created_at: String,
}

/// RFC 3339 text of a time in milliseconds since the Unix epoch.
pub open spec fn millis_text(ms: u64) -> Seq<char> {
    rfc3339_text((ms / 1000) as int, (ms % 1000) as nat)
}

/// The view shows the session `m`: its id, label, the id's first eight
/// characters, when it paired (`created_at`) and when it was last used
/// (`last_used_at`).
pub open spec fn shows_session(m: SessionModel, v: SessionView) -> bool {
    &&& v.device_id@ == m.device_id
    &&& v.device_label@ == m.device_label
    &&& v.fingerprint_short@ == m.device_id.take(
        if m.device_id.len() < 8 {
            m.device_id.len() as int
        } else {
            8
        },
    )
    &&& v.created_at@ == millis_text(m.paired_at)
    &&& v.last_used_at@ == millis_text(m.last_seen)
}

/// A session as the list shows it: its id, label, the id's first eight
/// characters, and its two times as RFC 3339 text.
pub fn session_view(s: &Session) -> (r: SessionView)
    ensures
        shows_session(s@, r),
        r.device_id@ == s.device_id@,
        r.device_label@ == s.device_label@,
        r.fingerprint_short@ == s.device_id@.take(
            if s.device_id@.len() < 8 {
                s.device_id@.len() as int
            } else {
                8
            },
        ),
        r.last_used_at@ == rfc3339_text((s.last_seen / 1000) as int, (s.last_seen % 1000) as nat),
        r.created_at@ == rfc3339_text((s.paired_at / 1000) as int, (s.paired_at % 1000) as nat),
{
    let cs = chars_of(s.device_id.as_str());
    let n: usize = if cs.len() < 8 {
        cs.len()
    } else {
        8
    };
    let short = string_from_chars(&cs, 0, n);
    assert(cs@.subrange(0, n as int) =~= s.device_id@.take(n as int));
    SessionView {
        device_id: s.device_id.clone(),
        device_label: s.device_label.clone(),
        fingerprint_short: short,
        last_used_at: rfc3339_from_millis(s.last_seen),
        created_at: rfc3339_from_millis(s.paired_at),
    }
}

/// The view shows the id and label of some live session.
pub open spec fn shows_live_session(live: Map<Seq<char>, LiveSession>, v: SessionView) -> bool {
    exists|t: Seq<char>|
        live.contains_key(t) && v.device_id@ == (#[trigger] live[t]).session.device_id
            && v.device_label@ == live[t].session.device_label
}

/// `views` lists the sessions of `live` under the tokens `toks`: the `i`-th
/// view shows the live session of the `i`-th token, no token twice, in
/// listing order.
pub open spec fn lists_sessions(live: Map<Seq<char>, LiveSession>, toks: Seq<Seq<char>>, views: Seq<SessionView>) -> bool {
    &&& toks.len() == views.len()
    &&& forall|i: int|
        0 <= i < views.len() ==> live.contains_key(#[trigger] toks[i]) && shows_session(
            live[toks[i]].session,
            views[i],
        )
    &&& forall|i: int, j: int|
        #![trigger toks[i], toks[j]]
        0 <= i < j < views.len() ==> toks[i] != toks[j] && !session_before(
            live[toks[j]].session,
            live[toks[i]].session,
        )
}

/// The session list: one view per live session, in listing order.
pub fn session_views(svc: &PairingService) -> (r: Vec<SessionView>)
    requires
        svc.wf(),
    ensures
        r@.len() == svc.live().dom().len(),
        forall|i: int| 0 <= i < r@.len() ==> shows_live_session(svc.live(), #[trigger] r@[i]),
        exists|toks: Seq<Seq<char>>| lists_sessions(svc.live(), toks, r@),
{
    let sessions = svc.list_sessions();
    let mut out: Vec<SessionView> = Vec::new();
    let mut i: usize = 0;
    while i < sessions.len()
        invariant
            i <= sessions@.len(),
            out@.len() == i,
            forall|k: int|
                0 <= k < sessions@.len() ==> svc.live().contains_key((#[trigger] sessions@[k]).token@)
                    && sessions@[k]@ == svc.live()[sessions@[k].token@].session,
            forall|k: int| 0 <= k < i ==> shows_session(sessions@[k]@, #[trigger] out@[k]),
        decreases sessions@.len() - i,
    {
        out.push(session_view(&sessions[i]));
        i = i + 1;
    }
    let ghost toks = sessions@.map_values(|s: Session| s.token@);
    assert forall|k: int| 0 <= k < out@.len() implies shows_live_session(svc.live(), #[trigger] out@[k]) by {
        let t = sessions@[k].token@;
        assert(svc.live().contains_key(t));
        assert(sessions@[k]@ == svc.live()[t].session);
        assert(shows_session(sessions@[k]@, out@[k]));
        assert(svc.live().contains_key(t) && out@[k].device_id@ == svc.live()[t].session.device_id
            && out@[k].device_label@ == svc.live()[t].session.device_label);
    }
    assert forall|k: int| 0 <= k < out@.len() implies svc.live().contains_key(#[trigger] toks[k])
        && shows_session(svc.live()[toks[k]].session, out@[k]) by {
        assert(toks[k] == sessions@[k].token@);
        assert(shows_session(sessions@[k]@, out@[k]));
        assert(svc.live().contains_key(sessions@[k].token@));
    }
    assert forall|a: int, b: int|
        #![trigger toks[a], toks[b]]
        0 <= a < b < out@.len() implies toks[a] != toks[b] && !session_before(
            svc.live()[toks[b]].session,
            svc.live()[toks[a]].session,
        ) by {
        assert(toks[a] == sessions@[a].token@);
        assert(toks[b] == sessions@[b].token@);
        assert(sessions@[a].token@ != sessions@[b].token@ && !session_before(sessions@[b]@, sessions@[a]@));
        assert(svc.live().contains_key(sessions@[a].token@));
        assert(svc.live().contains_key(sessions@[b].token@));
    }
    assert(lists_sessions(svc.live(), toks, out@));
    out
}

/// Using a session changes only its last-used time in the list: the view
/// of a session before and after a use at `now` shows the same device and
/// the same creation time, and the new view's last-used time is `now`.
pub proof fn lemma_use_keeps_creation_time(m: SessionModel, now: u64, before: SessionView, after: SessionView)
    requires
        shows_session(m, before),
        shows_session(SessionModel { last_seen: now, ..m }, after),
    ensures
        after.created_at@ == before.created_at@,
        after.created_at@ == rfc3339_text((m.paired_at / 1000) as int, (m.paired_at % 1000) as nat),
        after.last_used_at@ == rfc3339_text((now / 1000) as int, (now % 1000) as nat),
        after.device_id@ == before.device_id@,
        after.device_label@ == before.device_label@,
{
}

/// Every row of the session list gives the pairing time of a live session
/// as its creation time and that session's last use as its last-used time,
/// and the list holds each live session exactly once.
pub proof fn lemma_session_list_times(
    live: Map<Seq<char>, LiveSession>,
    toks: Seq<Seq<char>>,
    views: Seq<SessionView>,
)
    requires
        live.dom().finite(),
        views.len() == live.dom().len(),
        lists_sessions(live, toks, views),
    ensures
        forall|i: int|
            0 <= i < views.len() ==> live.contains_key(#[trigger] toks[i]) && views[i].created_at@
                == rfc3339_text(
                (live[toks[i]].session.paired_at / 1000) as int,
                (live[toks[i]].session.paired_at % 1000) as nat,
            ) && views[i].last_used_at@ == rfc3339_text(
                (live[toks[i]].session.last_seen / 1000) as int,
                (live[toks[i]].session.last_seen % 1000) as nat,
            ),
        forall|t: Seq<char>| #[trigger] live.contains_key(t) ==> exists|i: int| 0 <= i < views.len() && toks[i] == t,
{
    let ts = toks.to_set();
    assert(ts.subset_of(live.dom())) by {
        assert forall|t: Seq<char>| ts.contains(t) implies live.dom().contains(t) by {
            let i = choose|i: int| 0 <= i < toks.len() && toks[i] == t;
            assert(live.contains_key(toks[i]));
        }
    }
    assert(toks.no_duplicates()) by {
        assert forall|i: int, j: int| 0 <= i < toks.len() && 0 <= j < toks.len() && i != j implies toks[i] != toks[j] by {
            if i < j {
                assert(toks[i] != toks[j]);
            } else {
                assert(toks[j] != toks[i]);
            }
        }
    }
    toks.unique_seq_to_set();
    vstd::set_lib::lemma_len_subset(ts, live.dom());
    vstd::set_lib::lemma_subset_equality(ts, live.dom());
    assert forall|t: Seq<char>| #[trigger] live.contains_key(t) implies exists|i: int| 0 <= i < views.len() && toks[i] == t by {
        assert(ts.contains(t));
    }
}

/// The text of one character inside an HTML text node.
pub open spec fn escaped_char(c: char) -> Seq<char> {
    if c == '&' {
        seq!['&', 'a', 'm', 'p', ';']
    } else if c == '<' {
        seq!['&', 'l', 't', ';']
    } else if c == '>' {
        seq!['&', 'g', 't', ';']
    } else {
        seq![c]
    }
}

/// `s` with `&`, `<` and `>` written as entities.
pub open spec fn html_escaped(s: Seq<char>) -> Seq<char>
    decreases s.len(),
{
    if s.len() == 0 {
        Seq::empty()
    } else {
        html_escaped(s.drop_last()) + escaped_char(s.last())
    }
}

/// `s` with `&`, `<` and `>` written as entities, so it can stand in HTML
/// text.
pub fn html_escape(s: &str) -> (r: String)
    ensures
        r@ == html_escaped(s@),
{
    let cs = chars_of(s);
    let mut out = String::new();
    let mut i: usize = 0;
    while i < cs.len()
        invariant
            cs@ == s@,
            i <= cs@.len(),
            out@ == html_escaped(s@.take(i as int)),
        decreases cs@.len() - i,
    {
        let c = cs[i];
        let ghost before = out@;
        if c == '&' {
            push_str(&mut out, "&amp;");
            proof { reveal_strlit("&amp;"); }
        } else if c == '<' {
            push_str(&mut out, "&lt;");
            proof { reveal_strlit("&lt;"); }
        } else if c == '>' {
            push_str(&mut out, "&gt;");
            proof { reveal_strlit("&gt;"); }
        } else {
            push_char(&mut out, c);
        }
        proof {
            assert(s@.take(i + 1).drop_last() =~= s@.take(i as int));
            assert(s@.take(i + 1).last() == c);
            assert(out@ =~= before + escaped_char(c));
        }
        i = i + 1;
    }
    assert(s@.take(s@.len() as int) =~= s@);
    out
}

/// The SVG around the pairing code, before the code.
pub const QR_SVG_HEAD: &'static str = "<svg xmlns=\"http://www.w3.org/2000/svg\" viewBox=\"0 0 200 200\"><rect width=\"200\" height=\"200\" fill=\"#fff\"/><text x=\"100\" y=\"100\" font-size=\"14\" text-anchor=\"middle\">";

/// The SVG around the pairing code, after the code.
pub const QR_SVG_TAIL: &'static str = "</text></svg>";

/// A 200 by 200 SVG card that shows `text`, escaped, in its centre.
pub fn render_qr_svg(text: &str) -> (r: String)
    ensures
        r@ == QR_SVG_HEAD@ + html_escaped(text@) + QR_SVG_TAIL@,
{
    let mut out = String::from_str(QR_SVG_HEAD);
    let body = html_escape(text);
    out.append(body.as_str());
    out.append(QR_SVG_TAIL);
    out
}

/// The pairing code as the window shows it: its text and its card.
#[derive(Debug, Clone)]
pub struct PairingCodeView {
    pub code: String,
    pub qr_svg: String,
}

/// The view of a pairing code.
pub fn pairing_code_view(code: &PairingCode) -> (r: PairingCodeView)
    ensures
        vstd::utf8::encode_utf8(r.code@) == code@,
        r.qr_svg@ == QR_SVG_HEAD@ + html_escaped(r.code@) + QR_SVG_TAIL@,
{
    let s = code.as_str();
    let text = String::from_str(s);
    let svg = render_qr_svg(s);
    PairingCodeView { code: text, qr_svg: svg }
}

/// Whether a fingerprint is the one a device id was derived from.
pub fn fingerprint_matches(fp: &DeviceFingerprint, expected_device_id: &str) -> (r: bool)
    ensures
        r == (device_id_of(fp@) == expected_device_id@),
{
    let actual = derive_device_id(fp);
    let a = chars_of(actual.as_str());
    let b = chars_of(expected_device_id);
    chars_eq(&a, &b)
}

fn chars_eq(a: &Vec<char>, b: &Vec<char>) -> (r: bool)
    ensures
        r == (a@ == b@),
{
    if a.len() != b.len() {
        return false;
    }
    let mut i: usize = 0;
    while i < a.len()
        invariant
            a@.len() == b@.len(),
            i <= a@.len(),
            forall|j: int| 0 <= j < i ==> a@[j] == b@[j],
        decreases a@.len() - i,
    {
        if a[i] != b[i] {
            return false;
        }
        i = i + 1;
    }
    assert(a@ =~= b@);
    true
}

/// The newest log lines for the log view and the bytes they take.
#[derive(Debug, Clone)]
pub struct LogsTail {
    pub lines: Vec<String>,
    pub total_bytes: u32,
}

/// The newest lines of the log that fit in `max_bytes` (by default the
/// diagnostics budget), counting one newline each; nothing when there is no
/// log yet.
pub fn logs_tail(buffer: Option<&RollingBuffer>, max_bytes: Option<u32>) -> (r: LogsTail)
    requires
        buffer matches Some(b) ==> b.wf(),
    ensures
        buffer is None ==> r.lines@.len() == 0 && r.total_bytes == 0,
        buffer matches Some(b) ==> {
            let cap: nat = match max_bytes {
                Some(n) => n as nat,
                None => MAX_DIAGNOSTICS_LOG_BYTES as nat,
            };
            let kept = b@.skip(tail_start(b@, cap) as int);
            &&& r.lines@.len() == kept.len()
            &&& forall|i: int| 0 <= i < kept.len() ==> (#[trigger] r.lines@[i])@ == kept[i]
            &&& r.total_bytes == stored_bytes(kept)
        },
{
    let b = match buffer {
        Some(b) => b,
        None => {
            return LogsTail { lines: Vec::new(), total_bytes: 0 };
        },
    };
    let cap: usize = match max_bytes {
        Some(n) => n as usize,
        None => MAX_DIAGNOSTICS_LOG_BYTES,
    };
    let snapshot = b.snapshot();
    proof {
        crate::rolling_log::lemma_buffer_within_limits(b);
    }
    let (keep, total) = tail_start_index(&snapshot, cap, Ghost(b@));
    let ghost view = b@;
    proof {
        crate::diagnostics::lemma_tail_start_at_bound(view, cap as nat);
    }
    let mut lines: Vec<String> = Vec::new();
    let mut j: usize = keep;
    while j < snapshot.len()
        invariant
            snapshot@.len() == view.len(),
            forall|i: int| 0 <= i < view.len() ==> (#[trigger] snapshot@[i])@ == view[i],
            keep <= j <= view.len(),
            lines@.len() == j - keep,
            forall|i: int| 0 <= i < j - keep ==> (#[trigger] lines@[i])@ == view[keep + i],
        decreases view.len() - j,
    {
        lines.push(snapshot[j].clone());
        j = j + 1;
    }
    proof {
        let kept = view.skip(keep as int);
        assert forall|i: int| 0 <= i < kept.len() implies (#[trigger] lines@[i])@ == kept[i] by {
            assert(kept[i] == view[keep + i]);
        }
        assert(total <= cap);
    }
    let total_u32: u32 = if total > 4294967295 {
        4294967295
    } else {
        total as u32
    };
    LogsTail { lines, total_bytes: total_u32 }
}

/// A failed command as the window receives it.
#[derive(Debug, Clone)]
pub struct CommandError {
    pub code: String,
    pub message: String,
}

impl CommandError {
    /// An error with `code`; its message is the dictionary's text for the
    /// code when there is one, `message` otherwise.
    pub fn from_code(code: ErrorCode, message: String, translated: Option<&str>) -> (r: Self)
        ensures
            r.code@ == code_text(code),
            r.message@ == (match translated {
                Some(t) => t@,
                None => message@,
            }),
    {
        let text = match translated {
            Some(t) => String::from_str(t),
            None => message,
        };
        CommandError { code: String::from_str(code.as_str()), message: text }
    }

    /// `<code>: <message>`.
    pub fn to_string(&self) -> (r: String)
        ensures
            r@ == self.code@ + seq![':', ' '] + self.message@,
    {
        let mut r = self.code.clone();
        push_char(&mut r, ':');
        push_char(&mut r, ' ');
        r.append(self.message.as_str());
        r
    }
}

/// The language a window asks for: the one whose tag it names, else the one
/// its text reads as a locale.
pub fn parse_lang(input: &str) -> (r: Lang)
    ensures
        r == (match lang_from_tag(input@) {
            Some(l) => l,
            None => lang_for_locale(input@),
        }),
{
    match Lang::from_str(input) {
        Some(l) => l,
        None => decide_lang(input),
    }
}

/// The interface language setting.
#[derive(Debug, Clone, Copy, PartialEq, Eq, Structural)]
pub enum UiLanguage {
    /// Follow the system locale.
    Auto,
    ZhCN,
    EnUS,
}

/// The language the interface uses: the one set, or for `Auto` the one the
/// system locale reads as (`en-US` when the system reports none).
pub fn ui_lang(setting: UiLanguage, system_locale: Option<&str>) -> (r: Lang)
    ensures
        r == (match setting {
            UiLanguage::ZhCN => Lang::ZhCN,
            UiLanguage::EnUS => Lang::EnUS,
            UiLanguage::Auto => match system_locale {
                Some(l) => lang_for_locale(l@),
                None => lang_for_locale("en-US"@),
            },
        }),
{
    match setting {
        UiLanguage::ZhCN => Lang::ZhCN,
        UiLanguage::EnUS => Lang::EnUS,
        UiLanguage::Auto => match system_locale {
            Some(l) => decide_lang(l),
            None => decide_lang("en-US"),
        },
    }
}

/// Longest accepted pause between injected characters, in ms.
pub const MAX_INJECT_DELAY_MS: u16 = 500;

/// Accepts an injection delay up to `MAX_INJECT_DELAY_MS`; a longer one is
/// refused as malformed.
pub fn check_inject_delay(delay_ms: u16, translated: Option<&str>) -> (r: Result<(), CommandError>)
    ensures
        delay_ms <= MAX_INJECT_DELAY_MS <==> r is Ok,
        r matches Err(e) ==> e.code@ == code_text(ErrorCode::MsgBadFormat) && e.message@ == (
        match translated {
            Some(t) => t@,
            None => "inject_delay_ms must be 0..=500"@,
        }),
{
    if delay_ms > MAX_INJECT_DELAY_MS {
        return Err(
            CommandError::from_code(
                ErrorCode::MsgBadFormat,
                String::from_str("inject_delay_ms must be 0..=500"),
                translated,
            ),
        );
    }
    Ok(())
}

/// How many sessions "revoke all" dropped.
#[derive(Debug, Clone)]
pub struct RevokeAllResult {
    pub revoked: u32,
}

/// Drops every session and says how many there were (saturating at
/// `u32::MAX`).
pub fn revoke_all_sessions(svc: &mut PairingService) -> (r: RevokeAllResult)
    requires
        old(svc).wf(),
    ensures
        final(svc).wf(),
        final(svc).code() == old(svc).code(),
        final(svc).failures() == old(svc).failures(),
        final(svc).live() == Map::<Seq<char>, LiveSession>::empty(),
        r.revoked == (if old(svc).live().dom().len() > u32::MAX {
            u32::MAX as nat
        } else {
            old(svc).live().dom().len()
        }),
{
    let count: usize = svc.list_sessions().len();
    svc.clear_sessions();
    let revoked: u32 = if count > 4294967295 {
        4294967295
    } else {
        count as u32
    };
    RevokeAllResult { revoked }
}

/// Some live session has this device id.
pub open spec fn has_device(live: Map<Seq<char>, LiveSession>, device_id: Seq<char>) -> bool {
    exists|t: Seq<char>| live.contains_key(t) && (#[trigger] live[t]).session.device_id == device_id
}

/// The first fingerprint of `index` whose device id is `device_id`.
pub open spec fn first_matching(index: Seq<DeviceFingerprint>, device_id: Seq<char>) -> Option<int>
    decreases index.len(),
{
    if index.len() == 0 {
        None
    } else {
        match first_matching(index.drop_last(), device_id) {
            Some(k) => Some(k),
            None => if device_id_of(index.last()@) == device_id {
                Some(index.len() - 1)
            } else {
                None
            },
        }
    }
}

proof fn lemma_first_matching(index: Seq<DeviceFingerprint>, device_id: Seq<char>)
    ensures
        first_matching(index, device_id) matches Some(k) ==> 0 <= k < index.len() && device_id_of(
            index[k]@,
        ) == device_id,
    decreases index.len(),
{
    if index.len() > 0 {
        lemma_first_matching(index.drop_last(), device_id);
    }
}

/// Revokes the device with id `device_id`: the first fingerprint of `index`
/// that derives that id, when some live session has it, loses all its
/// sessions; otherwise nothing changes and the error names the id.
pub fn revoke_session(svc: &mut PairingService, index: &Vec<DeviceFingerprint>, device_id: &str) -> (r: Result<(), String>)
    requires
        old(svc).wf(),
    ensures
        final(svc).wf(),
        final(svc).code() == old(svc).code(),
        final(svc).failures() == old(svc).failures(),
        r is Ok <==> (has_device(old(svc).live(), device_id@) && first_matching(index@, device_id@) is Some),
        r is Ok ==> ({
            let fp = index@[first_matching(index@, device_id@)->0]@;
            &&& forall|t: Seq<char>|
                #[trigger] final(svc).live().contains_key(t) <==> old(svc).live().contains_key(t)
                    && old(svc).live()[t].fingerprint != fp
            &&& forall|t: Seq<char>|
                #[trigger] final(svc).live().contains_key(t) ==> final(svc).live()[t] == old(svc).live()[t]
        }),
        r matches Err(m) ==> m@ == "device_id "@ + device_id@ + " not found"@ && final(svc).live()
            == old(svc).live() && final(svc).revoked_tokens() == old(svc).revoked_tokens(),
{
    let sessions = svc.list_sessions();
    let wanted = chars_of(device_id);
    let mut found = false;
    let mut i: usize = 0;
    while i < sessions.len()
        invariant
            i <= sessions@.len(),
            wanted@ == device_id@,
            svc.wf(),
            svc.code() == old(svc).code(),
            svc.failures() == old(svc).failures(),
            svc.live() == old(svc).live(),
            svc.revoked_tokens() == old(svc).revoked_tokens(),
            forall|k: int|
                0 <= k < sessions@.len() ==> svc.live().contains_key((#[trigger] sessions@[k]).token@)
                    && sessions@[k]@ == svc.live()[sessions@[k].token@].session,
            sessions@.len() == svc.live().dom().len(),
            found ==> has_device(svc.live(), device_id@),
            !found ==> forall|k: int| 0 <= k < i ==> (#[trigger] sessions@[k]).device_id@ != device_id@,
        decreases sessions@.len() - i,
    {
        let d = chars_of(sessions[i].device_id.as_str());
        if chars_eq(&d, &wanted) {
            proof {
                let t = sessions@[i as int].token@;
                assert(svc.live()[t].session.device_id == device_id@);
            }
            found = true;
        }
        i = i + 1;
    }
    if !found {
        proof {
            lemma_every_live_listed(svc, sessions@);
        }
        let mut m = String::from_str("device_id ");
        m.append(device_id);
        m.append(" not found");
        return Err(m);
    }
    let mut j: usize = 0;
    while j < index.len()
        invariant
            j <= index@.len(),
            first_matching(index@.take(j as int), device_id@) is None,
            svc.wf(),
            svc.code() == old(svc).code(),
            svc.failures() == old(svc).failures(),
            svc.live() == old(svc).live(),
            svc.revoked_tokens() == old(svc).revoked_tokens(),
            has_device(svc.live(), device_id@),
        decreases index@.len() - j,
    {
        if fingerprint_matches(&index[j], device_id) {
            proof {
                assert(index@.take(j + 1).drop_last() =~= index@.take(j as int));
                assert(first_matching(index@.take(j + 1), device_id@) == Some(j as int));
                lemma_first_matching_prefix(index@, device_id@, j + 1);
            }
            svc.revoke_device(&index[j]);
            return Ok(());
        }
        proof {
            assert(index@.take(j + 1).drop_last() =~= index@.take(j as int));
        }
        j = j + 1;
    }
    proof {
        assert(index@.take(index@.len() as int) =~= index@);
    }
    let mut m = String::from_str("device_id ");
    m.append(device_id);
    m.append(" not found");
    Err(m)
}

proof fn lemma_first_matching_prefix(index: Seq<DeviceFingerprint>, device_id: Seq<char>, n: int)
    requires
        0 <= n <= index.len(),
        first_matching(index.take(n), device_id) is Some,
    ensures
        first_matching(index, device_id) == first_matching(index.take(n), device_id),
    decreases index.len() - n,
{
    if n < index.len() {
        assert(index.take(n + 1).drop_last() =~= index.take(n));
        lemma_first_matching_prefix(index, device_id, n + 1);
    } else {
        assert(index.take(n) =~= index);
    }
}

proof fn lemma_every_live_listed(svc: &PairingService, listed: Seq<Session>)
    requires
        svc.wf(),
        listed.len() == svc.live().dom().len(),
        forall|k: int|
            0 <= k < listed.len() ==> svc.live().contains_key((#[trigger] listed[k]).token@)
                && listed[k]@ == svc.live()[listed[k].token@].session,
        forall|i: int, j: int| #![trigger listed[i], listed[j]] 0 <= i < j < listed.len() ==> listed[i].token@ != listed[j].token@,
    ensures
        forall|t: Seq<char>|
            svc.live().contains_key(t) ==> exists|k: int| 0 <= k < listed.len() && (#[trigger] listed[k]).token@ == t,
{
    svc.lemma_live_finite();
    let toks = listed.map_values(|s: Session| s.token@);
    assert(toks.no_duplicates()) by {
        assert forall|i: int, j: int| 0 <= i < toks.len() && 0 <= j < toks.len() && i != j implies toks[i] != toks[j] by {
            if i < j {
                assert(listed[i].token@ != listed[j].token@);
            } else {
                assert(listed[j].token@ != listed[i].token@);
            }
        }
    }
    toks.unique_seq_to_set();
    let ts = toks.to_set();
    assert(ts.subset_of(svc.live().dom())) by {
        assert forall|t: Seq<char>| ts.contains(t) implies svc.live().dom().contains(t) by {
            let k = choose|k: int| 0 <= k < toks.len() && toks[k] == t;
            assert(svc.live().contains_key(listed[k].token@));
        }
    }
    vstd::set_lib::lemma_subset_equality(ts, svc.live().dom());
    assert forall|t: Seq<char>| svc.live().contains_key(t) implies exists|k: int| 0 <= k < listed.len() && (#[trigger] listed[k]).token@ == t by {
        assert(ts.contains(t));
        let k = choose|k: int| 0 <= k < toks.len() && toks[k] == t;
        assert(listed[k].token@ == t);
    }
}

/// Remembers a paired device's fingerprint, once.
pub fn record_pairing(index: &mut Vec<DeviceFingerprint>, fp: DeviceFingerprint)
    ensures
        (exists|i: int| 0 <= i < old(index)@.len() && (#[trigger] old(index)@[i])@ == fp@) ==> final(index)@ == old(index)@,
        !(exists|i: int| 0 <= i < old(index)@.len() && (#[trigger] old(index)@[i])@ == fp@) ==> final(index)@ == old(index)@.push(fp),
{
    let wanted = chars_of(fp.0.as_str());
    let mut i: usize = 0;
    while i < index.len()
        invariant
            i <= index@.len(),
            wanted@ == fp@,
            forall|k: int| 0 <= k < i ==> (#[trigger] index@[k])@ != fp@,
        decreases index@.len() - i,
    {
        let have = chars_of(index[i].0.as_str());
        if chars_eq(&have, &wanted) {
            return;
        }
        i = i + 1;
    }
    index.push(fp);
}

/// What the main window shows of the running service.
#[derive(Debug, Clone)]
pub struct RuntimeInfo {
    pub scheme: String,
    pub port: u16,
    pub ips: Vec<String>,
    pub urls: Vec<String>,
    pub version: String,
    pub uptime_secs: u64,
    pub lan_disabled: bool,
    pub banner: Option<String>,
    pub paused: bool,
    pub inject_delay_ms: u16,
}

/// `<scheme>://<host>:<port>`.
pub open spec fn url_text(scheme: Seq<char>, host: Seq<char>, port: u16) -> Seq<char> {
    scheme + seq![':', '/', '/'] + host + seq![':'] + crate::text::decimal(port as nat)
}

/// One URL per address, in order.
pub fn runtime_urls(scheme: &str, ips: &[String], port: u16) -> (r: Vec<String>)
    ensures
        r@.len() == ips@.len(),
        forall|i: int| 0 <= i < r@.len() ==> (#[trigger] r@[i])@ == url_text(scheme@, ips@[i]@, port),
{
    let mut out: Vec<String> = Vec::new();
    let mut i: usize = 0;
    while i < ips.len()
        invariant
            i <= ips@.len(),
            out@.len() == i,
            forall|k: int| 0 <= k < i ==> (#[trigger] out@[k])@ == url_text(scheme@, ips@[k]@, port),
        decreases ips@.len() - i,
    {
        let mut url = String::from_str(scheme);
        push_char(&mut url, ':');
        push_char(&mut url, '/');
        push_char(&mut url, '/');
        url.append(ips[i].as_str());
        push_char(&mut url, ':');
        crate::text::push_decimal(&mut url, port as u64);
        assert(url@ =~= url_text(scheme@, ips@[i as int]@, port));
        out.push(url);
        i = i + 1;
    }
    out
}

/// The addresses among `ips` that read as dotted-decimal IPv4, in order.
pub open spec fn parsed_v4_addrs(ips: Seq<Seq<char>>) -> Seq<IpAddr>
    decreases ips.len(),
{
    if ips.len() == 0 {
        Seq::empty()
    } else {
        let init = parsed_v4_addrs(ips.drop_last());
        match ipv4_from_text(ips.last()) {
            Some(v) => init.push(IpAddr::V4(v)),
            None => init,
        }
    }
}

/// What the window shows of the running service: `<scheme>://<ip>:<port>`
/// for each address, and the LAN state of the addresses that read as IPv4
/// (scanning off, with `no_lan_banner`, when none is private).
pub fn runtime_info(
    scheme: String,
    port: u16,
    ips: Vec<String>,
    version: String,
    uptime_secs: u64,
    paused: bool,
    inject_delay_ms: u16,
    no_lan_banner: Option<&str>,
) -> (r: RuntimeInfo)
    ensures
        r.scheme@ == scheme@,
        r.port == port,
        r.ips@ == ips@,
        r.urls@.len() == ips@.len(),
        forall|i: int| 0 <= i < r.urls@.len() ==> (#[trigger] r.urls@[i])@ == url_text(scheme@, ips@[i]@, port),
        r.version@ == version@,
        r.uptime_secs == uptime_secs,
        r.lan_disabled == (first_occurrences(private_v4(parsed_v4_addrs(texts(ips@)))).len() == 0),
        r.lan_disabled == r.banner is Some,
        r.banner matches Some(b) ==> b@ == (match no_lan_banner {
            Some(t) => t@,
            None => NO_LAN_BANNER_FALLBACK@,
        }),
        r.paused == paused,
        r.inject_delay_ms == inject_delay_ms,
{
    let urls = runtime_urls(scheme.as_str(), ips.as_slice(), port);
    let mut ifaces: Vec<NetworkInterface> = Vec::new();
    let mut i: usize = 0;
    while i < ips.len()
        invariant
            i <= ips@.len(),
            all_addrs(ifaces@) == parsed_v4_addrs(texts(ips@).take(i as int)),
        decreases ips@.len() - i,
    {
        let ghost before = ifaces@;
        proof {
            assert(texts(ips@).take(i + 1).drop_last() =~= texts(ips@).take(i as int));
            assert(texts(ips@).take(i + 1).last() == ips@[i as int]@);
        }
        match parse_ipv4(ips[i].as_str()) {
            Some(v4) => {
                let addrs = vec![IpAddr::V4(v4)];
                ifaces.push(NetworkInterface { name: String::from_str("iface"), addrs });
                proof {
                    assert(ifaces@.drop_last() =~= before);
                    assert(all_addrs(ifaces@) =~= all_addrs(before) + seq![IpAddr::V4(v4)]);
                }
            },
            None => {},
        }
        i = i + 1;
    }
    assert(texts(ips@).take(ips@.len() as int) =~= texts(ips@));
    let view = compute_lan_view(ifaces.as_slice(), no_lan_banner);
    RuntimeInfo {
        scheme,
        port,
        ips,
        urls,
        version,
        uptime_secs,
        lan_disabled: view.scan_disabled,
        banner: view.banner,
        paused,
        inject_delay_ms,
    }
}


/// How long start-up may take before it is reported as failed, in seconds.
pub const STARTUP_BUDGET_SECS: u64 = 5;

/// The last start-up stage the window is told about: `ready` when every
/// subsystem came up within the budget, `error` otherwise; its message;
/// and whether the app is ready.
pub fn startup_outcome(elapsed_ms: u64) -> (r: (&'static str, &'static str, bool))
    ensures
        elapsed_ms < STARTUP_BUDGET_SECS * 1000 ==> r.0@ == "ready"@ && r.1@ == "All subsystems ready"@ && r.2,
        elapsed_ms >= STARTUP_BUDGET_SECS * 1000 ==> r.0@ == "error"@ && r.1@ == "Startup exceeded 5s budget"@ && !r.2,
{
    if elapsed_ms < STARTUP_BUDGET_SECS * 1000 {
        ("ready", "All subsystems ready", true)
    } else {
        ("error", "Startup exceeded 5s budget", false)
    }
}

} // verus!
