//! Keyboard injection: what text becomes as key events, a recording backend,
//! and fan-out of injection reports.

use std::sync::Arc;
use vstd::prelude::*;
use vstd::string::StringExecFns;
use crate::text::chars_of;

verus! {

/// Receives the outcome of each injection request.
pub trait InjectorEventSink {
    /// Whether this sink takes in the failure report `(code, message,
    /// request_id)`: what a call of `on_inject_error` with those arguments
    /// guarantees. A sink that does not say more takes in every report.
    closed spec fn takes_error(&self, code: Seq<char>, message: Seq<char>, request_id: Option<Seq<char>>) -> bool {
        true
    }

    /// Whether this sink takes in the acknowledgement `(request_id, chars)`:
    /// what a call of `on_inject_ack` with those arguments guarantees. A
    /// sink that does not say more takes in every acknowledgement.
    closed spec fn takes_ack(&self, request_id: Option<Seq<char>>, chars: usize) -> bool {
        true
    }

    /// A failed injection: error code, message, and the request id if any.
    fn on_inject_error(&self, code: &str, message: &str, request_id: Option<&str>)
        ensures
            self.takes_error(code@, message@, id_text(request_id)),
    ;

    /// A completed injection of `chars` characters.
    fn on_inject_ack(&self, request_id: Option<&str>, chars: usize)
        ensures
            self.takes_ack(id_text(request_id), chars),
    ;
}

/// Passes every report on to each of its sinks, in order.
pub struct MultiSink {
    sinks: Vec<Arc<dyn InjectorEventSink>>,
}

impl MultiSink {
    /// The sinks reports go to, in order.
    pub closed spec fn spec_sinks(&self) -> Seq<Arc<dyn InjectorEventSink>> {
        self.sinks@
    }

    /// A sink that reports to each of `sinks`, in order; with none it
    /// reports nowhere.
    pub fn new(sinks: Vec<Arc<dyn InjectorEventSink>>) -> (r: Self)
        ensures
            r.spec_sinks() == sinks@,
    {
        MultiSink { sinks }
    }
}

impl InjectorEventSink for MultiSink {
    /// Every inner sink takes in the same failure report.
    open spec fn takes_error(&self, code: Seq<char>, message: Seq<char>, request_id: Option<Seq<char>>) -> bool {
        forall|i: int| 0 <= i < self.spec_sinks().len() ==> (#[trigger] self.spec_sinks()[i]).takes_error(code, message, request_id)
    }

    /// Every inner sink takes in the same acknowledgement.
    open spec fn takes_ack(&self, request_id: Option<Seq<char>>, chars: usize) -> bool {
        forall|i: int| 0 <= i < self.spec_sinks().len() ==> (#[trigger] self.spec_sinks()[i]).takes_ack(request_id, chars)
    }

    fn on_inject_error(&self, code: &str, message: &str, request_id: Option<&str>) {
        let mut i: usize = 0;
        while i < self.sinks.len()
            invariant
                i <= self.sinks@.len(),
                forall|k: int| 0 <= k < i ==> (#[trigger] self.sinks@[k]).takes_error(code@, message@, id_text(request_id)),
            decreases self.sinks@.len() - i,
        {
            self.sinks[i].on_inject_error(code, message, request_id);
            i = i + 1;
        }
    }

    fn on_inject_ack(&self, request_id: Option<&str>, chars: usize) {
        let mut i: usize = 0;
        while i < self.sinks.len()
            invariant
                i <= self.sinks@.len(),
                forall|k: int| 0 <= k < i ==> (#[trigger] self.sinks@[k]).takes_ack(id_text(request_id), chars),
            decreases self.sinks@.len() - i,
        {
            self.sinks[i].on_inject_ack(request_id, chars);
            i = i + 1;
        }
    }
}

/// A report handed to a fan-out sink reaches each of its sinks unchanged:
/// after `on_inject_ack(request_id, chars)` every inner sink has taken in
/// the acknowledgement with that same request id and count, and after
/// `on_inject_error(code, message, request_id)` the failure with that same
/// code, message and request id.
pub proof fn lemma_multi_sink_reaches_every_sink(
    m: &MultiSink,
    code: Seq<char>,
    message: Seq<char>,
    request_id: Option<Seq<char>>,
    chars: usize,
)
    ensures
        m.takes_ack(request_id, chars) ==> forall|i: int|
            0 <= i < m.spec_sinks().len() ==> (#[trigger] m.spec_sinks()[i]).takes_ack(request_id, chars),
        m.takes_error(code, message, request_id) ==> forall|i: int|
            0 <= i < m.spec_sinks().len() ==> (#[trigger] m.spec_sinks()[i]).takes_error(
                code,
                message,
                request_id,
            ),
{
}

/// A sink that drops every report.
#[derive(Debug, Default, Clone, Copy)]
pub struct NullSink;

impl InjectorEventSink for NullSink {
    /// It takes in any report and keeps none.
    open spec fn takes_error(&self, code: Seq<char>, message: Seq<char>, request_id: Option<Seq<char>>) -> bool {
        true
    }

    /// It takes in any acknowledgement and keeps none.
    open spec fn takes_ack(&self, request_id: Option<Seq<char>>, chars: usize) -> bool {
        true
    }

    fn on_inject_error(&self, code: &str, message: &str, request_id: Option<&str>) {
    }

    fn on_inject_ack(&self, request_id: Option<&str>, chars: usize) {
    }
}

/// One key event: a Unicode scalar value, or the Enter key.
#[derive(Debug, Clone, Copy, PartialEq, Eq, Structural)]
pub enum EventKind {
    Char(u32),
    Enter,
}

/// A planned key event and when it is due (ms on the planner's clock).
#[derive(Debug, Clone, Copy, PartialEq, Eq, Structural)]
pub struct InjectionEvent {
    pub kind: EventKind,
    pub codepoint: Option<u32>,
    pub ts: u64,
}

/// The window that has the keyboard focus.
#[derive(Debug, Clone, PartialEq, Eq)]
pub struct FocusInfo {
    pub app: String,
    pub title: String,
}

/// Why an injection failed.
#[derive(Debug, Clone, PartialEq, Eq)]
pub enum InjectError {
    NoFocusTarget,
    PermissionDenied,
    Paused,
    BackendError(String),
}

/// The wire error code of an injection failure.
pub open spec fn inject_error_code(e: InjectError) -> Seq<char> {
    match e {
        InjectError::NoFocusTarget => "INJECT_NO_FOCUS_TARGET"@,
        InjectError::PermissionDenied => "INJECT_PERMISSION_DENIED"@,
        InjectError::Paused => "INJECT_PAUSED"@,
        InjectError::BackendError(_) => "INJECT_BACKEND_ERROR"@,
    }
}

/// The message of an injection failure.
pub open spec fn inject_error_message(e: InjectError) -> Seq<char> {
    match e {
        InjectError::NoFocusTarget => "no focus target"@,
        InjectError::PermissionDenied => "permission denied"@,
        InjectError::Paused => "injection paused"@,
        InjectError::BackendError(d) => "backend error: "@ + d@,
    }
}

impl InjectError {
    /// The wire error code.
    pub fn code(&self) -> (r: &'static str)
        ensures
            r@ == inject_error_code(*self),
    {
        match self {
            InjectError::NoFocusTarget => "INJECT_NO_FOCUS_TARGET",
            InjectError::PermissionDenied => "INJECT_PERMISSION_DENIED",
            InjectError::Paused => "INJECT_PAUSED",
            InjectError::BackendError(_) => "INJECT_BACKEND_ERROR",
        }
    }

    /// The human-readable message.
    pub fn to_string(&self) -> (r: String)
        ensures
            r@ == inject_error_message(*self),
    {
        match self {
            InjectError::NoFocusTarget => String::from_str("no focus target"),
            InjectError::PermissionDenied => String::from_str("permission denied"),
            InjectError::Paused => String::from_str("injection paused"),
            InjectError::BackendError(d) => {
                let mut s = String::from_str("backend error: ");
                s.append(d.as_str());
                s
            },
        }
    }
}

/// The key event for one character: Enter for a newline, the character's
/// scalar value otherwise.
pub open spec fn event_kind_for(c: char) -> EventKind {
    if c == '\n' {
        EventKind::Enter
    } else {
        EventKind::Char(c as u32)
    }
}

/// The planned event for character `c` due at `ts`.
pub open spec fn event_for(c: char, ts: int) -> InjectionEvent {
    InjectionEvent {
        kind: event_kind_for(c),
        codepoint: if c == '\n' {
            None
        } else {
            Some(c as u32)
        },
        ts: ts as u64,
    }
}

fn event_at(c: char, ts: u64) -> (e: InjectionEvent)
    ensures
        e == event_for(c, ts as int),
{
    if c == '\n' {
        InjectionEvent { kind: EventKind::Enter, codepoint: None, ts }
    } else {
        let cp: u32 = c as u32;
        InjectionEvent { kind: EventKind::Char(cp), codepoint: Some(cp), ts }
    }
}

/// Turns text into key events spaced `delay_ms` apart from `base`.
#[derive(Debug, Clone, Copy)]
pub struct InjectionPlanner {
    pub base: u64,
    pub delay_ms: u32,
}

impl InjectionPlanner {
    /// A planner whose first event is due now, in ms on the system clock
    /// (a clock reading past half the `u64` range is taken as that half, so
    /// that plans of reasonable length fit).
    pub fn new(delay_ms: u32) -> (r: Self)
        ensures
            r.delay_ms == delay_ms,
            r.base <= u64::MAX / 2,
    {
        let now = now_millis();
        let base: u64 = if now <= u64::MAX / 2 {
            now
        } else {
            u64::MAX / 2
        };
        InjectionPlanner { base, delay_ms }
    }

    /// A planner whose first event is due at `base`.
    pub fn with_base(base: u64, delay_ms: u32) -> (r: Self)
        ensures
            r.base == base,
            r.delay_ms == delay_ms,
    {
        InjectionPlanner { base, delay_ms }
    }

    /// One event per character of `text`, in order, the `i`-th due at
    /// `base + i * delay_ms`.
    pub fn plan(&self, text: &str) -> (r: Vec<InjectionEvent>)
        requires
            self.base + text@.len() * self.delay_ms <= u64::MAX,
        ensures
            r@.len() == text@.len(),
            forall|i: int|
                0 <= i < r@.len() ==> #[trigger] r@[i] == event_for(
                    text@[i],
                    self.base + i * self.delay_ms,
                ),
    {
        let cs = chars_of(text);
        let mut out: Vec<InjectionEvent> = Vec::new();
        let mut idx: usize = 0;
        while idx < cs.len()
            invariant
                cs@ == text@,
                self.base + text@.len() * self.delay_ms <= u64::MAX,
                idx <= cs@.len(),
                out@.len() == idx,
                forall|i: int|
                    0 <= i < idx ==> #[trigger] out@[i] == event_for(
                        text@[i],
                        self.base + i * self.delay_ms,
                    ),
            decreases cs@.len() - idx,
        {
            proof {
                assert(idx * self.delay_ms <= text@.len() * self.delay_ms) by (nonlinear_arith)
                    requires
                        idx <= text@.len(),
                ;
            }
            let offset: u64 = (idx as u64) * (self.delay_ms as u64);
            let ts: u64 = self.base + offset;
            out.push(event_at(cs[idx], ts));
            idx = idx + 1;
        }
        out
    }
}

/// Consecutive planned events are exactly `delay_ms` apart.
pub proof fn lemma_plan_spacing(text: Seq<char>, base: int, delay_ms: int, i: int)
    requires
        0 <= i,
        i + 1 < text.len(),
        0 <= delay_ms,
        0 <= base,
        base + text.len() * delay_ms <= u64::MAX,
    ensures
        event_for(text[i + 1], base + (i + 1) * delay_ms).ts - event_for(
            text[i],
            base + i * delay_ms,
        ).ts == delay_ms,
{
    assert((i + 1) * delay_ms == i * delay_ms + delay_ms) by (nonlinear_arith);
    assert(0 <= i * delay_ms) by (nonlinear_arith)
        requires
            0 <= i,
            0 <= delay_ms,
    ;
    assert((i + 1) * delay_ms <= text.len() * delay_ms) by (nonlinear_arith)
        requires
            i + 1 <= text.len(),
            0 <= delay_ms,
    ;
}

/// What the recording backend saw.
#[derive(Debug, Clone, Copy, PartialEq, Eq, Structural)]
pub enum RecordedEvent {
    Char(u32),
    Enter,
    PausedRejected,
    NoFocusRejected,
    PermissionRejected,
}

/// What the recording backend records for one character of a text.
pub open spec fn recorded_for(c: char) -> RecordedEvent {
    if c == '\n' {
        RecordedEvent::Enter
    } else {
        RecordedEvent::Char(c as u32)
    }
}

/// Milliseconds since the Unix epoch on the system clock; nothing is
/// promised of the value.
#[verifier::external_body]
fn now_millis() -> u64 {
    match std::time::SystemTime::now().duration_since(std::time::UNIX_EPOCH) {
        Ok(d) => d.as_millis() as u64,
        Err(_) => 0,
    }
}

fn clone_focus(f: &FocusInfo) -> (r: FocusInfo)
    ensures
        r.app@ == f.app@,
        r.title@ == f.title@,
{
    FocusInfo { app: f.app.clone(), title: f.title.clone() }
}

/// An injector that records key events instead of sending them, with
/// switches for every failure an operating system can report.
#[derive(Debug)]
pub struct VirtualBackend {
    paused: bool,
    delay_ms: u32,
    focus: Option<FocusInfo>,
    deny_permission: bool,
    backend_error: Option<String>,
    events: Vec<RecordedEvent>,
    raw_events: Vec<InjectionEvent>,
}

impl VirtualBackend {
    /// Whether injection is paused.
    pub closed spec fn spec_paused(&self) -> bool {
        self.paused
    }

    /// The inter-character delay in ms.
    pub closed spec fn spec_delay_ms(&self) -> u32 {
        self.delay_ms
    }

    /// Whether some window has the focus.
    pub closed spec fn spec_has_focus(&self) -> bool {
        self.focus is Some
    }

    /// Application and title of the focused window, if any.
    pub closed spec fn spec_focus(&self) -> Option<(Seq<char>, Seq<char>)> {
        match self.focus {
            Some(f) => Some((f.app@, f.title@)),
            None => None,
        }
    }

    /// There is a focused window exactly when its application and title are
    /// known.
    pub proof fn lemma_focus(&self)
        ensures
            self.spec_has_focus() == self.spec_focus() is Some,
    {
    }

    /// Whether the platform refuses permission.
    pub closed spec fn spec_denies_permission(&self) -> bool {
        self.deny_permission
    }

    /// The backend failure to report, if any.
    pub closed spec fn spec_backend_error(&self) -> Option<Seq<char>> {
        match self.backend_error {
            Some(d) => Some(d@),
            None => None,
        }
    }

    /// Everything recorded so far, oldest first.
    pub closed spec fn spec_events(&self) -> Seq<RecordedEvent> {
        self.events@
    }

    /// Kinds of the key events delivered so far, oldest first.
    pub closed spec fn spec_raw_kinds(&self) -> Seq<EventKind> {
        self.raw_events@.map_values(|e: InjectionEvent| e.kind)
    }

    /// A fresh backend, unpaused, without delay, permitted, without backend
    /// failure and with nothing recorded.
    pub open spec fn fresh(&self) -> bool {
        &&& !self.spec_paused()
        &&& self.spec_delay_ms() == 0
        &&& !self.spec_denies_permission()
        &&& self.spec_backend_error() is None
        &&& self.spec_events().len() == 0
        &&& self.spec_raw_kinds().len() == 0
    }

    /// A fresh backend whose focus is `info`.
    pub fn with_focus(info: FocusInfo) -> (r: Self)
        ensures
            r.fresh(),
            r.spec_has_focus(),
            r.spec_focus() == Some((info.app@, info.title@)),
    {
        VirtualBackend {
            paused: false,
            delay_ms: 0,
            focus: Some(info),
            deny_permission: false,
            backend_error: None,
            events: Vec::new(),
            raw_events: Vec::new(),
        }
    }

    /// A fresh backend with no focused window.
    pub fn without_focus() -> (r: Self)
        ensures
            r.fresh(),
            !r.spec_has_focus(),
            r.spec_focus() is None,
    {
        VirtualBackend {
            paused: false,
            delay_ms: 0,
            focus: None,
            deny_permission: false,
            backend_error: None,
            events: Vec::new(),
            raw_events: Vec::new(),
        }
    }

    /// The default backend, but refusing permission.
    pub fn deny_permission() -> (r: Self)
        ensures
            r.spec_focus() == Some(("virtual-app"@, "virtual-window"@)),
            !r.spec_paused(),
            r.spec_delay_ms() == 0,
            r.spec_has_focus(),
            r.spec_denies_permission(),
            r.spec_backend_error() is None,
            r.spec_events().len() == 0,
            r.spec_raw_kinds().len() == 0,
    {
        let mut v = Self::default();
        v.deny_permission = true;
        v
    }

    /// The default backend, but failing with `detail`.
    pub fn with_backend_error(detail: String) -> (r: Self)
        ensures
            r.spec_focus() == Some(("virtual-app"@, "virtual-window"@)),
            !r.spec_paused(),
            r.spec_delay_ms() == 0,
            r.spec_has_focus(),
            !r.spec_denies_permission(),
            r.spec_backend_error() == Some(detail@),
            r.spec_events().len() == 0,
            r.spec_raw_kinds().len() == 0,
    {
        let mut v = Self::default();
        v.backend_error = Some(detail);
        v
    }

    /// Replaces the focused window.
    pub fn set_focus(&mut self, info: Option<FocusInfo>)
        ensures
            final(self).spec_has_focus() == info is Some,
            final(self).spec_focus() == match info {
                Some(f) => Some((f.app@, f.title@)),
                None => None,
            },
            final(self).spec_paused() == old(self).spec_paused(),
            final(self).spec_delay_ms() == old(self).spec_delay_ms(),
            final(self).spec_denies_permission() == old(self).spec_denies_permission(),
            final(self).spec_backend_error() == old(self).spec_backend_error(),
            final(self).spec_events() == old(self).spec_events(),
            final(self).spec_raw_kinds() == old(self).spec_raw_kinds(),
    {
        self.focus = info;
    }

    /// Everything recorded so far; the record is emptied.
    pub fn drain_events(&mut self) -> (r: Vec<RecordedEvent>)
        ensures
            r@ == old(self).spec_events(),
            final(self).spec_events().len() == 0,
            final(self).spec_paused() == old(self).spec_paused(),
            final(self).spec_delay_ms() == old(self).spec_delay_ms(),
            final(self).spec_has_focus() == old(self).spec_has_focus(),
            final(self).spec_focus() == old(self).spec_focus(),
            final(self).spec_denies_permission() == old(self).spec_denies_permission(),
            final(self).spec_backend_error() == old(self).spec_backend_error(),
            final(self).spec_raw_kinds() == old(self).spec_raw_kinds(),
    {
        let mut out: Vec<RecordedEvent> = Vec::new();
        std::mem::swap(&mut out, &mut self.events);
        out
    }

    /// A copy of everything recorded so far.
    pub fn snapshot_events(&self) -> (r: Vec<RecordedEvent>)
        ensures
            r@ == self.spec_events(),
    {
        let mut out: Vec<RecordedEvent> = Vec::new();
        let mut i: usize = 0;
        while i < self.events.len()
            invariant
                i <= self.events@.len(),
                out@ == self.events@.subrange(0, i as int),
            decreases self.events@.len() - i,
        {
            out.push(self.events[i]);
            assert(self.events@.subrange(0, i + 1) =~= self.events@.subrange(0, i as int).push(self.events@[i as int]));
            i = i + 1;
        }
        assert(self.events@.subrange(0, self.events@.len() as int) =~= self.events@);
        out
    }

    /// The delivered key events with their times; the record is emptied.
    pub fn drain_raw_events(&mut self) -> (r: Vec<InjectionEvent>)
        ensures
            r@.map_values(|e: InjectionEvent| e.kind) == old(self).spec_raw_kinds(),
            final(self).spec_raw_kinds().len() == 0,
            final(self).spec_events() == old(self).spec_events(),
            final(self).spec_paused() == old(self).spec_paused(),
            final(self).spec_delay_ms() == old(self).spec_delay_ms(),
            final(self).spec_has_focus() == old(self).spec_has_focus(),
            final(self).spec_focus() == old(self).spec_focus(),
            final(self).spec_denies_permission() == old(self).spec_denies_permission(),
            final(self).spec_backend_error() == old(self).spec_backend_error(),
    {
        let mut out: Vec<InjectionEvent> = Vec::new();
        std::mem::swap(&mut out, &mut self.raw_events);
        assert(self.raw_events@.map_values(|e: InjectionEvent| e.kind) =~= Seq::<EventKind>::empty());
        out
    }

    fn record_raw(&mut self, kind: EventKind, codepoint: Option<u32>)
        ensures
            final(self).spec_raw_kinds() == old(self).spec_raw_kinds().push(kind),
            final(self).events@ == old(self).events@,
            final(self).paused == old(self).paused,
            final(self).delay_ms == old(self).delay_ms,
            final(self).focus == old(self).focus,
            final(self).deny_permission == old(self).deny_permission,
            final(self).backend_error == old(self).backend_error,
    {
        let ts = now_millis();
        self.raw_events.push(InjectionEvent { kind, codepoint, ts });
        assert(self.raw_events@.map_values(|e: InjectionEvent| e.kind) =~= old(self).raw_events@.map_values(
            |e: InjectionEvent| e.kind,
        ).push(kind));
    }

    fn check_preconditions(&mut self) -> (r: Result<(), InjectError>)
        ensures
            final(self).paused == old(self).paused,
            final(self).delay_ms == old(self).delay_ms,
            final(self).focus == old(self).focus,
            final(self).deny_permission == old(self).deny_permission,
            final(self).backend_error == old(self).backend_error,
            final(self).raw_events == old(self).raw_events,
            key_outcome(old(self).paused, old(self).deny_permission, old(self).focus is Some, old(self).spec_backend_error(), r, old(self).events@, final(self).events@),
    {
        if self.paused {
            self.events.push(RecordedEvent::PausedRejected);
            return Err(InjectError::Paused);
        }
        if self.deny_permission {
            self.events.push(RecordedEvent::PermissionRejected);
            return Err(InjectError::PermissionDenied);
        }
        if self.focus.is_none() {
            self.events.push(RecordedEvent::NoFocusRejected);
            return Err(InjectError::NoFocusTarget);
        }
        match &self.backend_error {
            Some(detail) => Err(InjectError::BackendError(detail.clone())),
            None => Ok(()),
        }
    }
}

/// How the checks before a single key event end, in their order: paused,
/// permission, focus, backend failure; each refusal but the last is
/// recorded.
pub open spec fn key_outcome(
    paused: bool,
    denied: bool,
    has_focus: bool,
    backend_error: Option<Seq<char>>,
    r: Result<(), InjectError>,
    before: Seq<RecordedEvent>,
    after: Seq<RecordedEvent>,
) -> bool {
    if paused {
        r == Err::<(), InjectError>(InjectError::Paused) && after == before.push(RecordedEvent::PausedRejected)
    } else if denied {
        r == Err::<(), InjectError>(InjectError::PermissionDenied) && after == before.push(RecordedEvent::PermissionRejected)
    } else if !has_focus {
        r == Err::<(), InjectError>(InjectError::NoFocusTarget) && after == before.push(RecordedEvent::NoFocusRejected)
    } else {
        after == before && match backend_error {
            Some(d) => r matches Err(InjectError::BackendError(s)) && s@ == d,
            None => r is Ok,
        }
    }
}

impl Default for VirtualBackend {
    fn default() -> (r: Self)
        ensures
            r.fresh(),
            r.spec_has_focus(),
            r.spec_focus() == Some(("virtual-app"@, "virtual-window"@)),
    {
        VirtualBackend::with_focus(
            FocusInfo { app: String::from_str("virtual-app"), title: String::from_str("virtual-window") },
        )
    }
}

/// How an injection of `text` ends, checks in the order the text path makes
/// them: paused, focus, permission, backend failure; on success every
/// character is recorded.
pub open spec fn text_outcome(
    paused: bool,
    denied: bool,
    has_focus: bool,
    backend_error: Option<Seq<char>>,
    text: Seq<char>,
    r: Result<(), InjectError>,
    before: Seq<RecordedEvent>,
    after: Seq<RecordedEvent>,
) -> bool {
    if paused {
        r == Err::<(), InjectError>(InjectError::Paused) && after == before.push(RecordedEvent::PausedRejected)
    } else if !has_focus {
        r == Err::<(), InjectError>(InjectError::NoFocusTarget) && after == before.push(RecordedEvent::NoFocusRejected)
    } else if denied {
        r == Err::<(), InjectError>(InjectError::PermissionDenied) && after == before.push(RecordedEvent::PermissionRejected)
    } else {
        match backend_error {
            Some(d) => r matches Err(InjectError::BackendError(s)) && s@ == d && after == before,
            None => r is Ok && after == before + text.map_values(|c: char| recorded_for(c)),
        }
    }
}

impl VirtualBackend {
    /// Records one character after the checks pass.
    pub fn inject_codepoint(&mut self, codepoint: u32) -> (r: Result<(), InjectError>)
        ensures
            key_outcome(
                old(self).spec_paused(),
                old(self).spec_denies_permission(),
                old(self).spec_has_focus(),
                old(self).spec_backend_error(),
                r,
                old(self).spec_events(),
                if r is Ok { final(self).spec_events().drop_last() } else { final(self).spec_events() },
            ),
            r is Ok ==> final(self).spec_events().last() == RecordedEvent::Char(codepoint),
            r is Ok ==> final(self).spec_raw_kinds() == old(self).spec_raw_kinds().push(EventKind::Char(codepoint)),
            r is Err ==> final(self).spec_raw_kinds() == old(self).spec_raw_kinds(),
            final(self).spec_paused() == old(self).spec_paused(),
            final(self).spec_delay_ms() == old(self).spec_delay_ms(),
            final(self).spec_has_focus() == old(self).spec_has_focus(),
            final(self).spec_focus() == old(self).spec_focus(),
            final(self).spec_denies_permission() == old(self).spec_denies_permission(),
            final(self).spec_backend_error() == old(self).spec_backend_error(),
    {
        let c = self.check_preconditions();
        match c {
            Err(e) => Err(e),
            Ok(()) => {
                let ghost mid = self.events@;
                self.events.push(RecordedEvent::Char(codepoint));
                assert(self.events@.drop_last() =~= mid);
                self.record_raw(EventKind::Char(codepoint), Some(codepoint));
                Ok(())
            },
        }
    }

    /// Records one Enter after the checks pass.
    pub fn inject_enter(&mut self) -> (r: Result<(), InjectError>)
        ensures
            key_outcome(
                old(self).spec_paused(),
                old(self).spec_denies_permission(),
                old(self).spec_has_focus(),
                old(self).spec_backend_error(),
                r,
                old(self).spec_events(),
                if r is Ok { final(self).spec_events().drop_last() } else { final(self).spec_events() },
            ),
            r is Ok ==> final(self).spec_events().last() == RecordedEvent::Enter,
            r is Ok ==> final(self).spec_raw_kinds() == old(self).spec_raw_kinds().push(EventKind::Enter),
            r is Err ==> final(self).spec_raw_kinds() == old(self).spec_raw_kinds(),
            final(self).spec_paused() == old(self).spec_paused(),
            final(self).spec_delay_ms() == old(self).spec_delay_ms(),
            final(self).spec_has_focus() == old(self).spec_has_focus(),
            final(self).spec_focus() == old(self).spec_focus(),
            final(self).spec_denies_permission() == old(self).spec_denies_permission(),
            final(self).spec_backend_error() == old(self).spec_backend_error(),
    {
        let c = self.check_preconditions();
        match c {
            Err(e) => Err(e),
            Ok(()) => {
                let ghost mid = self.events@;
                self.events.push(RecordedEvent::Enter);
                assert(self.events@.drop_last() =~= mid);
                self.record_raw(EventKind::Enter, None);
                Ok(())
            },
        }
    }

    /// Pauses or resumes injection.
    pub fn pause(&mut self, paused: bool)
        ensures
            final(self).spec_paused() == paused,
            final(self).spec_delay_ms() == old(self).spec_delay_ms(),
            final(self).spec_has_focus() == old(self).spec_has_focus(),
            final(self).spec_focus() == old(self).spec_focus(),
            final(self).spec_denies_permission() == old(self).spec_denies_permission(),
            final(self).spec_backend_error() == old(self).spec_backend_error(),
            final(self).spec_events() == old(self).spec_events(),
            final(self).spec_raw_kinds() == old(self).spec_raw_kinds(),
    {
        self.paused = paused;
    }

    /// Whether injection is paused.
    pub fn is_paused(&self) -> (r: bool)
        ensures
            r == self.spec_paused(),
    {
        self.paused
    }

    /// The inter-character delay in ms.
    pub fn delay_ms(&self) -> (r: u32)
        ensures
            r == self.spec_delay_ms(),
    {
        self.delay_ms
    }

    /// Sets the inter-character delay in ms.
    pub fn set_delay_ms(&mut self, delay_ms: u32)
        ensures
            final(self).spec_delay_ms() == delay_ms,
            final(self).spec_paused() == old(self).spec_paused(),
            final(self).spec_has_focus() == old(self).spec_has_focus(),
            final(self).spec_focus() == old(self).spec_focus(),
            final(self).spec_denies_permission() == old(self).spec_denies_permission(),
            final(self).spec_backend_error() == old(self).spec_backend_error(),
            final(self).spec_events() == old(self).spec_events(),
            final(self).spec_raw_kinds() == old(self).spec_raw_kinds(),
    {
        self.delay_ms = delay_ms;
    }

    /// The focused window, if any.
    pub fn current_focus_app(&self) -> (r: Option<FocusInfo>)
        ensures
            r is Some == self.spec_has_focus(),
            match r {
                Some(f) => self.spec_focus() == Some((f.app@, f.title@)),
                None => self.spec_focus() is None,
            },
    {
        match &self.focus {
            Some(f) => Some(clone_focus(f)),
            None => None,
        }
    }

    /// Records every character of `text`, Enter for a newline, once the
    /// checks pass; nothing of the text is recorded when one fails.
    pub fn inject_text(&mut self, text: &str) -> (r: Result<(), InjectError>)
        ensures
            text_outcome(
                old(self).spec_paused(),
                old(self).spec_denies_permission(),
                old(self).spec_has_focus(),
                old(self).spec_backend_error(),
                text@,
                r,
                old(self).spec_events(),
                final(self).spec_events(),
            ),
            r is Ok ==> final(self).spec_raw_kinds() == old(self).spec_raw_kinds() + text@.map_values(
                |c: char| event_kind_for(c),
            ),
            r is Err ==> final(self).spec_raw_kinds() == old(self).spec_raw_kinds(),
            final(self).spec_paused() == old(self).spec_paused(),
            final(self).spec_delay_ms() == old(self).spec_delay_ms(),
            final(self).spec_has_focus() == old(self).spec_has_focus(),
            final(self).spec_focus() == old(self).spec_focus(),
            final(self).spec_denies_permission() == old(self).spec_denies_permission(),
            final(self).spec_backend_error() == old(self).spec_backend_error(),
    {
        if self.paused {
            self.events.push(RecordedEvent::PausedRejected);
            return Err(InjectError::Paused);
        }
        if self.focus.is_none() {
            self.events.push(RecordedEvent::NoFocusRejected);
            return Err(InjectError::NoFocusTarget);
        }
        if self.deny_permission {
            self.events.push(RecordedEvent::PermissionRejected);
            return Err(InjectError::PermissionDenied);
        }
        match &self.backend_error {
            Some(detail) => {
                return Err(InjectError::BackendError(detail.clone()));
            },
            None => {},
        }
        let cs = chars_of(text);
        let ghost ev0 = self.events@;
        let ghost raw0 = self.spec_raw_kinds();
        let mut i: usize = 0;
        while i < cs.len()
            invariant
                cs@ == text@,
                i <= cs@.len(),
                self.events@ == ev0 + text@.subrange(0, i as int).map_values(|c: char| recorded_for(c)),
                self.spec_raw_kinds() == raw0 + text@.subrange(0, i as int).map_values(|c: char| event_kind_for(c)),
                self.paused == old(self).paused,
                self.delay_ms == old(self).delay_ms,
                self.focus == old(self).focus,
                self.deny_permission == old(self).deny_permission,
                self.backend_error == old(self).backend_error,
            decreases cs@.len() - i,
        {
            let ch = cs[i];
            let ghost evb = self.events@;
            if ch == '\n' {
                self.events.push(RecordedEvent::Enter);
                self.record_raw(EventKind::Enter, None);
            } else {
                let cp: u32 = ch as u32;
                self.events.push(RecordedEvent::Char(cp));
                self.record_raw(EventKind::Char(cp), Some(cp));
            }
            proof {
                let pre = text@.subrange(0, i as int);
                let post = text@.subrange(0, i + 1);
                assert(post =~= pre.push(ch));
                assert(post.map_values(|c: char| recorded_for(c)) =~= pre.map_values(|c: char| recorded_for(c)).push(recorded_for(ch)));
                assert(post.map_values(|c: char| event_kind_for(c)) =~= pre.map_values(|c: char| event_kind_for(c)).push(event_kind_for(ch)));
                assert(self.events@ =~= ev0 + post.map_values(|c: char| recorded_for(c)));
            }
            i = i + 1;
        }
        proof {
            assert(text@.subrange(0, text@.len() as int) =~= text@);
        }
        Ok(())
    }
}

/// The virtual-key code of Enter.
pub const VK_RETURN: u16 = 13;

/// One keyboard input for the Windows `SendInput` call: a UTF-16 code unit
/// or a virtual key, pressed or released.
#[derive(Debug, Clone, Copy, PartialEq, Eq, Structural)]
pub enum KeyStroke {
    Unicode { scan: u16, key_up: bool },
    VirtualKey { vk: u16, key_up: bool },
}

/// The UTF-16 code units of a Unicode code point: itself when it fits in
/// 16 bits, otherwise its surrogate pair.
pub open spec fn utf16_units(cp: u32) -> Seq<u16> {
    if cp <= 0xFFFF {
        seq![cp as u16]
    } else {
        let v = (cp - 0x10000) as u32;
        seq![(0xD800 + (v >> 10)) as u16, (0xDC00 + (v & 0x3FF)) as u16]
    }
}

/// Whether `SendInput` typing can encode `cp` without overflowing the 16-bit
/// high surrogate: every BMP code point, and above it those whose
/// `(cp - 0x10000) >> 10`, cut to 16 bits, is at most `0x27FF`.
pub open spec fn sendable_codepoint(cp: u32) -> bool {
    cp <= 0xFFFF || (((cp - 0x10000) as u32 >> 10u32) as u16) <= 0x27FF
}

/// Each code unit pressed and released, in order.
pub open spec fn unicode_strokes(units: Seq<u16>) -> Seq<KeyStroke>
    decreases units.len(),
{
    if units.len() == 0 {
        Seq::empty()
    } else {
        seq![
            KeyStroke::Unicode { scan: units[0], key_up: false },
            KeyStroke::Unicode { scan: units[0], key_up: true },
        ] + unicode_strokes(units.drop_first())
    }
}

/// Keyboard state of the Windows `SendInput` backend. Sending is left to the
/// caller: each injection returns the inputs to send.
#[derive(Debug)]
pub struct WinSendInputBackend {
    paused: bool,
    delay_ms: u32,
    last_focus: Option<FocusInfo>,
}

impl WinSendInputBackend {
    /// Whether injection is paused.
    pub closed spec fn spec_paused(&self) -> bool {
        self.paused
    }

    /// Application and title of the window last noted in the foreground.
    pub closed spec fn spec_last_focus(&self) -> Option<(Seq<char>, Seq<char>)> {
        match self.last_focus {
            Some(f) => Some((f.app@, f.title@)),
            None => None,
        }
    }

    /// The inter-character delay in ms.
    pub closed spec fn spec_delay_ms(&self) -> u32 {
        self.delay_ms
    }

    /// Unpaused, without delay, no window seen yet.
    pub fn new() -> (r: Self)
        ensures
            !r.spec_paused(),
            r.spec_delay_ms() == 0,
    {
        WinSendInputBackend { paused: false, delay_ms: 0, last_focus: None }
    }

    /// The inputs that type `codepoint`, unless injection is paused. A code
    /// point above the BMP is split into a surrogate pair, its high unit the
    /// 16-bit sum `0xD800 + ((cp - 0x10000) >> 10)`, which must not overflow.
    pub fn inject_codepoint(&mut self, codepoint: u32) -> (r: Result<Vec<KeyStroke>, InjectError>)
        requires
            old(self).spec_paused() || sendable_codepoint(codepoint),
        ensures
            old(self).spec_paused() ==> r == Err::<Vec<KeyStroke>, InjectError>(InjectError::Paused),
            !old(self).spec_paused() ==> (r matches Ok(v) && v@ == unicode_strokes(utf16_units(codepoint))),
            final(self).spec_paused() == old(self).spec_paused(),
            final(self).spec_delay_ms() == old(self).spec_delay_ms(),
    {
        if self.paused {
            return Err(InjectError::Paused);
        }
        let mut out: Vec<KeyStroke> = Vec::new();
        if codepoint <= 0xFFFF {
            let scan: u16 = codepoint as u16;
            out.push(KeyStroke::Unicode { scan, key_up: false });
            out.push(KeyStroke::Unicode { scan, key_up: true });
            proof {
                let u = utf16_units(codepoint);
                assert(u[0] == scan);
                assert(u.drop_first() =~= Seq::<u16>::empty());
                assert(unicode_strokes(u.drop_first()) =~= Seq::<KeyStroke>::empty());
                assert(out@ =~= unicode_strokes(u));
            }
        } else {
            let v: u32 = codepoint - 0x10000;
            let t: u16 = #[verifier::truncate] ((v >> 10) as u16);
            assert(v & 0x3FF <= 0x3FF) by (bit_vector);
            let high: u16 = 0xD800 + t;
            let low: u16 = 0xDC00 + ((v & 0x3FF) as u16);
            assert(high == (0xD800 + (v >> 10)) as u16) by (bit_vector)
                requires
                    t == (v >> 10) as u16,
                    t <= 0x27FF,
                    high == 0xD800 + t,
            ;
            out.push(KeyStroke::Unicode { scan: high, key_up: false });
            out.push(KeyStroke::Unicode { scan: high, key_up: true });
            out.push(KeyStroke::Unicode { scan: low, key_up: false });
            out.push(KeyStroke::Unicode { scan: low, key_up: true });
            proof {
                let u = utf16_units(codepoint);
                assert(u[0] == high && u[1] == low);
                assert(u.drop_first().drop_first() =~= Seq::<u16>::empty());
                assert(unicode_strokes(u.drop_first().drop_first()) =~= Seq::<KeyStroke>::empty());
                assert(u.drop_first()[0] == low);
                assert(unicode_strokes(u.drop_first()) =~= seq![
                    KeyStroke::Unicode { scan: low, key_up: false },
                    KeyStroke::Unicode { scan: low, key_up: true },
                ]);
                assert(out@ =~= unicode_strokes(u));
            }
        }
        Ok(out)
    }

    /// The inputs that press Enter, unless injection is paused.
    pub fn inject_enter(&mut self) -> (r: Result<Vec<KeyStroke>, InjectError>)
        ensures
            old(self).spec_paused() ==> r == Err::<Vec<KeyStroke>, InjectError>(InjectError::Paused),
            !old(self).spec_paused() ==> (r matches Ok(v) && v@ == seq![
                KeyStroke::VirtualKey { vk: VK_RETURN, key_up: false },
                KeyStroke::VirtualKey { vk: VK_RETURN, key_up: true },
            ]),
            final(self).spec_paused() == old(self).spec_paused(),
            final(self).spec_delay_ms() == old(self).spec_delay_ms(),
    {
        if self.paused {
            return Err(InjectError::Paused);
        }
        let mut out: Vec<KeyStroke> = Vec::new();
        out.push(KeyStroke::VirtualKey { vk: VK_RETURN, key_up: false });
        out.push(KeyStroke::VirtualKey { vk: VK_RETURN, key_up: true });
        assert(out@ =~= seq![
            KeyStroke::VirtualKey { vk: VK_RETURN, key_up: false },
            KeyStroke::VirtualKey { vk: VK_RETURN, key_up: true },
        ]);
        Ok(out)
    }

    /// Pauses or resumes injection.
    pub fn pause(&mut self, paused: bool)
        ensures
            final(self).spec_paused() == paused,
            final(self).spec_delay_ms() == old(self).spec_delay_ms(),
    {
        self.paused = paused;
    }

    /// Whether injection is paused.
    pub fn is_paused(&self) -> (r: bool)
        ensures
            r == self.spec_paused(),
    {
        self.paused
    }

    /// The inter-character delay in ms.
    pub fn delay_ms(&self) -> (r: u32)
        ensures
            r == self.spec_delay_ms(),
    {
        self.delay_ms
    }

    /// Sets the inter-character delay in ms.
    pub fn set_delay_ms(&mut self, delay_ms: u32)
        ensures
            final(self).spec_delay_ms() == delay_ms,
            final(self).spec_paused() == old(self).spec_paused(),
    {
        self.delay_ms = delay_ms;
    }

    /// Remembers the window last found in the foreground and returns it.
    pub fn note_focus(&mut self, info: FocusInfo) -> (r: FocusInfo)
        ensures
            final(self).spec_last_focus() == Some((info.app@, info.title@)),
            r.app@ == info.app@,
            r.title@ == info.title@,
            final(self).spec_paused() == old(self).spec_paused(),
            final(self).spec_delay_ms() == old(self).spec_delay_ms(),
    {
        let copy = clone_focus(&info);
        self.last_focus = Some(info);
        copy
    }
}

impl Default for WinSendInputBackend {
    fn default() -> (r: Self)
        ensures
            !r.spec_paused(),
            r.spec_delay_ms() == 0,
    {
        WinSendInputBackend::new()
    }
}


/// `events` are the events for `text`, the first due at `base` and each
/// next one `delay_ms` later.
pub open spec fn planned_from(text: Seq<char>, delay_ms: u32, base: u64, events: Seq<InjectionEvent>) -> bool {
    &&& events.len() == text.len()
    &&& forall|i: int| 0 <= i < events.len() ==> #[trigger] events[i] == event_for(text[i], base + i * delay_ms)
}

/// One event per character of `text`, the first due now (ms on the system
/// clock, see `InjectionPlanner::new`) and each next one `delay_ms` later.
pub fn plan_injection(text: &str, delay_ms: u32) -> (r: Vec<InjectionEvent>)
    requires
        text@.len() * delay_ms <= u64::MAX / 2,
    ensures
        r@.len() == text@.len(),
        exists|base: u64| #[trigger] planned_from(text@, delay_ms, base, r@),
{
    let planner = InjectionPlanner::new(delay_ms);
    let r = planner.plan(text);
    assert(planned_from(text@, delay_ms, planner.base, r@));
    r
}

/// The upper-case hexadecimal digit for `d < 16`.
pub open spec fn hex_digit_upper(d: nat) -> char {
    if d < 10 {
        ('0' as nat + d) as char
    } else {
        ('A' as nat + (d - 10)) as char
    }
}

/// `n` in upper-case hexadecimal, without leading zeros.
pub open spec fn hex_upper(n: nat) -> Seq<char>
    decreases n,
{
    if n < 16 {
        seq![hex_digit_upper(n)]
    } else {
        hex_upper(n / 16).push(hex_digit_upper(n % 16))
    }
}

fn push_hex_upper(s: &mut String, n: u64)
    ensures
        final(s)@ == old(s)@ + hex_upper(n as nat),
    decreases n,
{
    if n >= 16 {
        push_hex_upper(s, n / 16);
    }
    let d: u64 = n % 16;
    let c: char = if d < 10 {
        ((48 + d) as u8) as char
    } else {
        ((55 + d) as u8) as char
    };
    assert(c == hex_digit_upper(d as nat));
    crate::text::push_char(s, c);
}

/// Whether a number is a Unicode scalar value (what `char::from_u32`
/// accepts).
pub open spec fn is_scalar_value(cp: u32) -> bool {
    cp <= 0x10FFFF && !(0xD800 <= cp <= 0xDFFF)
}

/// The macOS key code of Return.
pub const KEY_CODE_RETURN: u16 = 0x24;

/// Keyboard state of the macOS `CGEvent` backend. Posting the events, and
/// asking the system whether the process is trusted for accessibility, is
/// left to the caller.
#[derive(Debug)]
pub struct CGEventBackend {
    paused: bool,
    delay_ms: u32,
}

impl CGEventBackend {
    /// Whether injection is paused.
    pub closed spec fn spec_paused(&self) -> bool {
        self.paused
    }

    /// The inter-character delay in ms.
    pub closed spec fn spec_delay_ms(&self) -> u32 {
        self.delay_ms
    }

    /// Unpaused, without delay.
    pub fn new() -> (r: Self)
        ensures
            !r.spec_paused(),
            r.spec_delay_ms() == 0,
    {
        CGEventBackend { paused: false, delay_ms: 0 }
    }

    /// The UTF-16 units to post for `codepoint`: refused while paused, when
    /// the process is not `trusted` for accessibility, and for a number that
    /// is no Unicode scalar value (`invalid codepoint U+<hex>`).
    pub fn inject_codepoint(&mut self, codepoint: u32, trusted: bool) -> (r: Result<Vec<u16>, InjectError>)
        ensures
            old(self).spec_paused() ==> r == Err::<Vec<u16>, InjectError>(InjectError::Paused),
            !old(self).spec_paused() && !trusted ==> r == Err::<Vec<u16>, InjectError>(
                InjectError::PermissionDenied,
            ),
            !old(self).spec_paused() && trusted && !is_scalar_value(codepoint) ==> (r matches Err(
                InjectError::BackendError(m),
            ) && m@ == "invalid codepoint U+"@ + hex_upper(codepoint as nat)),
            !old(self).spec_paused() && trusted && is_scalar_value(codepoint) ==> (r matches Ok(u)
                && u@ == utf16_units(codepoint)),
            final(self).spec_paused() == old(self).spec_paused(),
            final(self).spec_delay_ms() == old(self).spec_delay_ms(),
    {
        if self.paused {
            return Err(InjectError::Paused);
        }
        if !trusted {
            return Err(InjectError::PermissionDenied);
        }
        if codepoint > 0x10FFFF || (0xD800 <= codepoint && codepoint <= 0xDFFF) {
            let mut m = String::from_str("invalid codepoint U+");
            push_hex_upper(&mut m, codepoint as u64);
            return Err(InjectError::BackendError(m));
        }
        let mut out: Vec<u16> = Vec::new();
        if codepoint <= 0xFFFF {
            out.push(codepoint as u16);
        } else {
            let v: u32 = codepoint - 0x10000;
            assert(v >> 10 <= 0x3FF) by (bit_vector)
                requires
                    v <= 0xFFFFF,
            ;
            assert(v & 0x3FF <= 0x3FF) by (bit_vector);
            out.push(0xD800 + ((v >> 10) as u16));
            out.push(0xDC00 + ((v & 0x3FF) as u16));
        }
        assert(out@ =~= utf16_units(codepoint));
        Ok(out)
    }

    /// The key code to post for Enter: refused while paused or when the
    /// process is not `trusted`.
    pub fn inject_enter(&mut self, trusted: bool) -> (r: Result<u16, InjectError>)
        ensures
            old(self).spec_paused() ==> r == Err::<u16, InjectError>(InjectError::Paused),
            !old(self).spec_paused() && !trusted ==> r == Err::<u16, InjectError>(
                InjectError::PermissionDenied,
            ),
            !old(self).spec_paused() && trusted ==> r == Ok::<u16, InjectError>(KEY_CODE_RETURN),
            final(self).spec_paused() == old(self).spec_paused(),
            final(self).spec_delay_ms() == old(self).spec_delay_ms(),
    {
        if self.paused {
            return Err(InjectError::Paused);
        }
        if !trusted {
            return Err(InjectError::PermissionDenied);
        }
        Ok(KEY_CODE_RETURN)
    }

    /// Pauses or resumes injection.
    pub fn pause(&mut self, paused: bool)
        ensures
            final(self).spec_paused() == paused,
            final(self).spec_delay_ms() == old(self).spec_delay_ms(),
    {
        self.paused = paused;
    }

    /// Whether injection is paused.
    pub fn is_paused(&self) -> (r: bool)
        ensures
            r == self.spec_paused(),
    {
        self.paused
    }

    /// The inter-character delay in ms.
    pub fn delay_ms(&self) -> (r: u32)
        ensures
            r == self.spec_delay_ms(),
    {
        self.delay_ms
    }

    /// Sets the inter-character delay.
    pub fn set_delay_ms(&mut self, delay_ms: u32)
        ensures
            final(self).spec_delay_ms() == delay_ms,
            final(self).spec_paused() == old(self).spec_paused(),
    {
        self.delay_ms = delay_ms;
    }

    /// The focused application as this backend reports it: a fixed name,
    /// no title.
    pub fn current_focus_app(&self) -> (r: Option<FocusInfo>)
        ensures
            r matches Some(f) && f.app@ == "macos-frontmost"@ && f.title@ == Seq::<char>::empty(),
    {
        Some(FocusInfo { app: String::from_str("macos-frontmost"), title: String::new() })
    }
}

impl Default for CGEventBackend {
    fn default() -> (r: Self)
        ensures
            !r.spec_paused(),
            r.spec_delay_ms() == 0,
    {
        CGEventBackend::new()
    }
}


/// The number of characters of `text`.
fn char_count(text: &str) -> (n: usize)
    ensures
        n == text@.len(),
{
    chars_of(text).len()
}

/// What a sink is told of one injection request.
#[derive(Debug, Clone, PartialEq, Eq)]
pub enum SinkReport {
    /// The text was typed: `chars` characters.
    Ack { request_id: Option<String>, chars: usize },
    /// The injection failed: its code and message.
    Error { code: String, message: String, request_id: Option<String> },
}

/// The text of an optional request id.
pub open spec fn id_text(id: Option<&str>) -> Option<Seq<char>> {
    match id {
        Some(s) => Some(s@),
        None => None,
    }
}

/// The text of an optional owned request id.
pub open spec fn owned_id_text(id: Option<String>) -> Option<Seq<char>> {
    match id {
        Some(s) => Some(s@),
        None => None,
    }
}

fn owned_id(id: Option<&str>) -> (r: Option<String>)
    ensures
        owned_id_text(r) == id_text(id),
{
    match id {
        Some(s) => Some(String::from_str(s)),
        None => None,
    }
}

fn borrowed_id(id: &Option<String>) -> (r: Option<&str>)
    ensures
        id_text(r) == owned_id_text(*id),
{
    match id {
        Some(s) => Some(s.as_str()),
        None => None,
    }
}

/// Whether `s` reports an injection of `text` that ended with `r`: on
/// success an acknowledgement with the number of characters, otherwise the
/// error's code and message; both carry the request id `rid`.
pub open spec fn reports(s: SinkReport, r: Result<(), InjectError>, text: Seq<char>, rid: Option<Seq<char>>) -> bool {
    match r {
        Ok(_) => s matches SinkReport::Ack { request_id, chars } && chars == text.len()
            && owned_id_text(request_id) == rid,
        Err(e) => s matches SinkReport::Error { code, message, request_id } && code@ == inject_error_code(e)
            && message@ == inject_error_message(e) && owned_id_text(request_id) == rid,
    }
}

/// The report for an injection of `text` that ended with `r` (see
/// [`reports`]).
pub fn sink_report(r: &Result<(), InjectError>, text: &str, request_id: Option<&str>) -> (s: SinkReport)
    ensures
        reports(s, *r, text@, id_text(request_id)),
{
    match r {
        Ok(()) => SinkReport::Ack { request_id: owned_id(request_id), chars: char_count(text) },
        Err(e) => SinkReport::Error {
            code: String::from_str(e.code()),
            message: e.to_string(),
            request_id: owned_id(request_id),
        },
    }
}

/// Whether `sink` has taken in `report`: an acknowledgement or a failure,
/// with the report's fields.
pub open spec fn delivered<S: InjectorEventSink + ?Sized>(sink: &S, report: SinkReport) -> bool {
    match report {
        SinkReport::Ack { request_id, chars } => sink.takes_ack(owned_id_text(request_id), chars),
        SinkReport::Error { code, message, request_id } => sink.takes_error(
            code@,
            message@,
            owned_id_text(request_id),
        ),
    }
}

/// Tells `sink` of `report` with one call (an acknowledgement or an
/// error, with the report's fields) and hands the report back.
fn deliver_report<S: InjectorEventSink + ?Sized>(sink: &S, report: SinkReport) -> (d: SinkReport)
    ensures
        d == report,
        delivered(sink, report),
{
    match &report {
        SinkReport::Ack { request_id, chars } => {
            let rid = borrowed_id(request_id);
            sink.on_inject_ack(rid, *chars);
        },
        SinkReport::Error { code, message, request_id } => {
            let rid = borrowed_id(request_id);
            sink.on_inject_error(code.as_str(), message.as_str(), rid);
        },
    }
    report
}

/// Injects `text` and tells `sink` the outcome: the report `sink_report`
/// makes of it is delivered once, and returned beside the outcome. The
/// outcome is that of `VirtualBackend::inject_text`.
pub fn inject_text_with_sink(
    injector: &mut VirtualBackend,
    sink: &dyn InjectorEventSink,
    text: &str,
    request_id: Option<&str>,
) -> (out: (Result<(), InjectError>, SinkReport))
    ensures
        text_outcome(
            old(injector).spec_paused(),
            old(injector).spec_denies_permission(),
            old(injector).spec_has_focus(),
            old(injector).spec_backend_error(),
            text@,
            out.0,
            old(injector).spec_events(),
            final(injector).spec_events(),
        ),
        reports(out.1, out.0, text@, id_text(request_id)),
        delivered(sink, out.1),
        final(injector).spec_paused() == old(injector).spec_paused(),
        final(injector).spec_delay_ms() == old(injector).spec_delay_ms(),
        final(injector).spec_focus() == old(injector).spec_focus(),
{
    let r = injector.inject_text(text);
    let report = deliver_report(sink, sink_report(&r, text, request_id));
    (r, report)
}


/// The lowercase hexadecimal digit for `d < 16`.
pub open spec fn hex_digit_lower_of(d: nat) -> char {
    if d < 10 {
        ('0' as nat + d) as char
    } else {
        ('a' as nat + (d - 10)) as char
    }
}

/// `n` in lowercase hexadecimal, without leading zeros.
pub open spec fn hex_lower_of(n: nat) -> Seq<char>
    decreases n,
{
    if n < 16 {
        seq![hex_digit_lower_of(n)]
    } else {
        hex_lower_of(n / 16).push(hex_digit_lower_of(n % 16))
    }
}

fn push_hex_lower(s: &mut String, n: u64)
    ensures
        final(s)@ == old(s)@ + hex_lower_of(n as nat),
    decreases n,
{
    if n >= 16 {
        push_hex_lower(s, n / 16);
    }
    let d: u64 = n % 16;
    let c: char = if d < 10 {
        ((48 + d) as u8) as char
    } else {
        ((87 + d) as u8) as char
    };
    assert(c == hex_digit_lower_of(d as nat));
    crate::text::push_char(s, c);
}

/// The X11 keysym of Return.
pub const XK_RETURN: u64 = 0xff0d;

/// The X11 keysym of a code point: Latin-1 code points are their own
/// keysym; for the others the bit `0x01000000` is set (the Unicode keysym
/// range).
pub open spec fn keysym_of(cp: u32) -> u64 {
    if cp < 0x100 {
        cp as u64
    } else {
        0x0100_0000u64 | (cp as u64)
    }
}

/// The keysym for `cp`.
pub fn codepoint_to_keysym(cp: u32) -> (k: u64)
    ensures
        k == keysym_of(cp),
{
    if cp < 0x100 {
        cp as u64
    } else {
        0x0100_0000u64 | (cp as u64)
    }
}

/// The error for a keysym the keyboard map has no key for:
/// `no keycode for keysym U+<hex>`.
pub fn missing_keycode_error(keysym: u64) -> (e: InjectError)
    ensures
        e matches InjectError::BackendError(m) && m@ == "no keycode for keysym U+"@ + hex_upper(keysym as nat),
{
    let mut m = String::from_str("no keycode for keysym U+");
    push_hex_upper(&mut m, keysym);
    InjectError::BackendError(m)
}

/// The focused window as the X11 backend reports it: none for window 0,
/// otherwise `x11-window-0x<hex id>` with the window's name (empty when it
/// has none).
pub fn x11_focus_info(active_window: u64, window_name: Option<String>) -> (r: Option<FocusInfo>)
    ensures
        active_window == 0 ==> r is None,
        active_window != 0 ==> (r matches Some(f) && f.app@ == "x11-window-0x"@ + hex_lower_of(
            active_window as nat,
        ) && f.title@ == match window_name {
            Some(n) => n@,
            None => Seq::<char>::empty(),
        }),
{
    if active_window == 0 {
        return None;
    }
    let mut app = String::from_str("x11-window-0x");
    push_hex_lower(&mut app, active_window);
    let title = match window_name {
        Some(n) => n,
        None => String::new(),
    };
    Some(FocusInfo { app, title })
}

/// Keyboard state of the X11 XTest backend. Talking to the X server is left
/// to the caller; `display_open` says whether a display connection exists
/// (there is none under Wayland).
#[derive(Debug)]
pub struct X11XTestBackend {
    paused: bool,
    delay_ms: u32,
    display_open: bool,
}

impl X11XTestBackend {
    /// Whether injection is paused.
    pub closed spec fn spec_paused(&self) -> bool {
        self.paused
    }

    /// The inter-character delay in ms.
    pub closed spec fn spec_delay_ms(&self) -> u32 {
        self.delay_ms
    }

    /// Whether a display connection exists.
    pub closed spec fn spec_display_open(&self) -> bool {
        self.display_open
    }

    /// Unpaused, without delay, over a display connection or none.
    pub fn new(display_open: bool) -> (r: Self)
        ensures
            !r.spec_paused(),
            r.spec_delay_ms() == 0,
            r.spec_display_open() == display_open,
    {
        X11XTestBackend { paused: false, delay_ms: 0, display_open }
    }

    /// The keysym to press and release for `codepoint`: refused while paused
    /// and without a display (`wayland_unsupported`).
    pub fn inject_codepoint(&mut self, codepoint: u32) -> (r: Result<u64, InjectError>)
        ensures
            old(self).spec_paused() ==> r == Err::<u64, InjectError>(InjectError::Paused),
            !old(self).spec_paused() && !old(self).spec_display_open() ==> (r matches Err(
                InjectError::BackendError(m),
            ) && m@ == "wayland_unsupported"@),
            !old(self).spec_paused() && old(self).spec_display_open() ==> r == Ok::<u64, InjectError>(
                keysym_of(codepoint),
            ),
            final(self).spec_paused() == old(self).spec_paused(),
            final(self).spec_delay_ms() == old(self).spec_delay_ms(),
            final(self).spec_display_open() == old(self).spec_display_open(),
    {
        if self.paused {
            return Err(InjectError::Paused);
        }
        if !self.display_open {
            return Err(InjectError::BackendError(String::from_str("wayland_unsupported")));
        }
        Ok(codepoint_to_keysym(codepoint))
    }

    /// The keysym to press and release for Enter, under the same refusals.
    pub fn inject_enter(&mut self) -> (r: Result<u64, InjectError>)
        ensures
            old(self).spec_paused() ==> r == Err::<u64, InjectError>(InjectError::Paused),
            !old(self).spec_paused() && !old(self).spec_display_open() ==> (r matches Err(
                InjectError::BackendError(m),
            ) && m@ == "wayland_unsupported"@),
            !old(self).spec_paused() && old(self).spec_display_open() ==> r == Ok::<u64, InjectError>(
                XK_RETURN,
            ),
            final(self).spec_paused() == old(self).spec_paused(),
            final(self).spec_delay_ms() == old(self).spec_delay_ms(),
            final(self).spec_display_open() == old(self).spec_display_open(),
    {
        if self.paused {
            return Err(InjectError::Paused);
        }
        if !self.display_open {
            return Err(InjectError::BackendError(String::from_str("wayland_unsupported")));
        }
        Ok(XK_RETURN)
    }

    /// Pauses or resumes injection.
    pub fn pause(&mut self, paused: bool)
        ensures
            final(self).spec_paused() == paused,
            final(self).spec_delay_ms() == old(self).spec_delay_ms(),
            final(self).spec_display_open() == old(self).spec_display_open(),
    {
        self.paused = paused;
    }

    /// Whether injection is paused.
    pub fn is_paused(&self) -> (r: bool)
        ensures
            r == self.spec_paused(),
    {
        self.paused
    }

    /// The inter-character delay in ms.
    pub fn delay_ms(&self) -> (r: u32)
        ensures
            r == self.spec_delay_ms(),
    {
        self.delay_ms
    }

    /// Sets the inter-character delay.
    pub fn set_delay_ms(&mut self, delay_ms: u32)
        ensures
            final(self).spec_delay_ms() == delay_ms,
            final(self).spec_paused() == old(self).spec_paused(),
            final(self).spec_display_open() == old(self).spec_display_open(),
    {
        self.delay_ms = delay_ms;
    }
}


/// The focused window as the Windows backend reports it: the process's
/// image name, or `pid:<pid>` when it could not be read, and the title.
pub fn win_focus_info(pid: u32, image_name: Option<String>, title: String) -> (r: FocusInfo)
    ensures
        r.app@ == match image_name {
            Some(n) => n@,
            None => "pid:"@ + crate::text::decimal(pid as nat),
        },
        r.title@ == title@,
{
    let app = match image_name {
        Some(n) => n,
        None => {
            let mut a = String::from_str("pid:");
            crate::text::push_decimal(&mut a, pid as u64);
            a
        },
    };
    FocusInfo { app, title }
}


/// An event that types something.
pub open spec fn is_typed(e: RecordedEvent) -> bool {
    e is Char || e is Enter
}

/// While paused nothing is typed: a key event or a text injected then fails
/// with `Paused` and only the refusal is recorded, whatever the other
/// switches are.
pub proof fn lemma_paused_types_nothing(
    denied: bool,
    has_focus: bool,
    backend_error: Option<Seq<char>>,
    text: Seq<char>,
    r: Result<(), InjectError>,
    before: Seq<RecordedEvent>,
    after: Seq<RecordedEvent>,
)
    requires
        key_outcome(true, denied, has_focus, backend_error, r, before, after) || text_outcome(
            true,
            denied,
            has_focus,
            backend_error,
            text,
            r,
            before,
            after,
        ),
    ensures
        r == Err::<(), InjectError>(InjectError::Paused),
        after == before.push(RecordedEvent::PausedRejected),
        forall|i: int| before.len() <= i < after.len() ==> !is_typed(#[trigger] after[i]),
{
}


/// One key of a text injection: how long to wait before it, then the key.
#[derive(Debug, Clone, Copy, PartialEq, Eq, Structural)]
pub struct TextStep {
    pub wait_ms: u32,
    pub key: EventKind,
}

/// The steps of injecting `text` with an inter-character delay: no wait
/// before the first key, `delay_ms` before each other one.
pub open spec fn text_steps(text: Seq<char>, delay_ms: u32) -> Seq<TextStep> {
    Seq::new(
        text.len(),
        |i: int| TextStep { wait_ms: if i == 0 { 0 } else { delay_ms }, key: event_kind_for(text[i]) },
    )
}

/// How a backend types `text`: refused while paused, then refused when no
/// window has the focus; otherwise one key per character (Enter for a
/// newline), each after the delay but the first. The caller waits and sends
/// each key in turn and stops at the first key the platform refuses.
pub fn text_injection_steps(paused: bool, has_focus: bool, delay_ms: u32, text: &str) -> (r: Result<Vec<TextStep>, InjectError>)
    ensures
        paused ==> r == Err::<Vec<TextStep>, InjectError>(InjectError::Paused),
        !paused && !has_focus ==> r == Err::<Vec<TextStep>, InjectError>(InjectError::NoFocusTarget),
        !paused && has_focus ==> (r matches Ok(v) && v@ == text_steps(text@, delay_ms)),
{
    if paused {
        return Err(InjectError::Paused);
    }
    if !has_focus {
        return Err(InjectError::NoFocusTarget);
    }
    let cs = chars_of(text);
    let mut out: Vec<TextStep> = Vec::new();
    let mut i: usize = 0;
    while i < cs.len()
        invariant
            cs@ == text@,
            i <= cs@.len(),
            out@ =~= text_steps(text@, delay_ms).take(i as int),
        decreases cs@.len() - i,
    {
        let c = cs[i];
        let key = if c == '\n' {
            EventKind::Enter
        } else {
            EventKind::Char(c as u32)
        };
        let wait_ms: u32 = if i == 0 {
            0
        } else {
            delay_ms
        };
        out.push(TextStep { wait_ms, key });
        i = i + 1;
    }
    assert(text_steps(text@, delay_ms).take(cs@.len() as int) =~= text_steps(text@, delay_ms));
    Ok(out)
}


/// What to do next in a text injection: send a key (after its wait), or
/// end with an outcome.
#[derive(Debug, PartialEq, Eq)]
pub enum RunAction {
    Send(TextStep),
    Finish(Result<(), InjectError>),
}

/// A text injection under way: its steps and how many of them were sent.
/// The caller asks `next`, performs what it says, and hands back how the
/// key went.
#[derive(Debug)]
pub struct TextRun {
    steps: Vec<TextStep>,
    sent: usize,
}

impl TextRun {
    /// The steps of the injection.
    pub closed spec fn spec_steps(&self) -> Seq<TextStep> {
        self.steps@
    }

    /// How many keys were sent so far.
    pub closed spec fn spec_sent(&self) -> nat {
        self.sent as nat
    }

    #[verifier::type_invariant]
    closed spec fn inv(&self) -> bool {
        self.sent <= self.steps@.len()
    }

    /// Starts injecting `text`: refused while paused, then refused when no
    /// window has the focus; otherwise the steps of `text_steps`, none sent.
    pub fn start(paused: bool, has_focus: bool, delay_ms: u32, text: &str) -> (r: Result<TextRun, InjectError>)
        ensures
            paused ==> (r matches Err(e) && e == InjectError::Paused),
            !paused && !has_focus ==> (r matches Err(e) && e == InjectError::NoFocusTarget),
            !paused && has_focus ==> (r matches Ok(run) && run.spec_steps() == text_steps(text@, delay_ms)
                && run.spec_sent() == 0),
    {
        let steps = text_injection_steps(paused, has_focus, delay_ms, text)?;
        Ok(TextRun { steps, sent: 0 })
    }

    /// The next action, given how the last key went (`Ok` before the
    /// first): a refused key ends the run with its error and nothing more is
    /// sent; otherwise the next step is sent, and after the last one the run
    /// ends with `Ok`.
    pub fn next(&mut self, last: Result<(), InjectError>) -> (a: RunAction)
        ensures
            final(self).spec_steps() == old(self).spec_steps(),
            last is Err ==> a == RunAction::Finish(last) && final(self).spec_sent() == old(self).spec_sent(),
            last is Ok && old(self).spec_sent() < old(self).spec_steps().len() ==> a == RunAction::Send(
                old(self).spec_steps()[old(self).spec_sent() as int],
            ) && final(self).spec_sent() == old(self).spec_sent() + 1,
            last is Ok && old(self).spec_sent() >= old(self).spec_steps().len() ==> a == RunAction::Finish(
                Ok(()),
            ) && final(self).spec_sent() == old(self).spec_sent(),
    {
        proof {
            use_type_invariant(&*self);
        }
        match last {
            Err(e) => RunAction::Finish(Err(e)),
            Ok(()) => {
                if self.sent < self.steps.len() {
                    let step = self.steps[self.sent];
                    self.sent = self.sent + 1;
                    RunAction::Send(step)
                } else {
                    RunAction::Finish(Ok(()))
                }
            },
        }
    }
}

} // verus!
