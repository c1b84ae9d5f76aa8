use std::sync::{Arc, Mutex};

use phonemic::injector::{
    sink_report, text_injection_steps, RunAction, SinkReport, TextRun, TextStep,
    inject_text_with_sink,
    CGEventBackend, KEY_CODE_RETURN,
    EventKind, FocusInfo, InjectError, InjectionPlanner, InjectorEventSink, KeyStroke, MultiSink,
    RecordedEvent, VirtualBackend, WinSendInputBackend, VK_RETURN,
};

fn plan(text: &str, delay_ms: u32) -> Vec<EventKind> {
    InjectionPlanner::with_base(0, delay_ms).plan(text).into_iter().map(|e| e.kind).collect()
}

#[test]
fn plan_empty_text_yields_no_events() {
    assert!(plan("", 0).is_empty());
    assert!(plan("", 100).is_empty());
}

#[test]
fn plan_ascii_text_preserves_codepoints() {
    let events = plan("abc", 0);
    assert_eq!(events, vec![EventKind::Char('a' as u32), EventKind::Char('b' as u32), EventKind::Char('c' as u32)]);
}

#[test]
fn plan_handles_bmp_and_supplementary_codepoints() {
    let events = plan("你🦀", 0);
    assert_eq!(events, vec![EventKind::Char(0x4F60), EventKind::Char(0x1F980)]);
}

#[test]
fn plan_maps_newline_to_enter() {
    let events = plan("a\nb\n", 0);
    assert_eq!(
        events,
        vec![EventKind::Char('a' as u32), EventKind::Enter, EventKind::Char('b' as u32), EventKind::Enter]
    );
}

#[test]
fn plan_respects_inter_event_delay() {
    let p = InjectionPlanner::with_base(1_000, 10);
    let events = p.plan("ab");
    assert_eq!(events[1].ts - events[0].ts, 10);
    assert_eq!(events[0].ts, 1_000);
    assert_eq!(events[0].codepoint, Some('a' as u32));
    let enter = p.plan("\n");
    assert_eq!(enter[0].codepoint, None);
}

#[test]
fn virtual_backend_default_records_chars_and_enter() {
    let mut b = VirtualBackend::default();
    b.inject_text("hi\n").unwrap();
    let events = b.drain_events();
    assert_eq!(events, vec![RecordedEvent::Char('h' as u32), RecordedEvent::Char('i' as u32), RecordedEvent::Enter]);
    assert!(b.drain_events().is_empty());
}

#[test]
fn virtual_backend_no_focus_returns_error() {
    let mut b = VirtualBackend::without_focus();
    let err = b.inject_text("x").unwrap_err();
    assert_eq!(err, InjectError::NoFocusTarget);
    assert_eq!(err.code(), "INJECT_NO_FOCUS_TARGET");
}

#[test]
fn virtual_backend_paused_blocks_all_injections() {
    let mut b = VirtualBackend::default();
    b.pause(true);
    assert_eq!(b.inject_text("a").unwrap_err(), InjectError::Paused);
    assert_eq!(b.inject_codepoint('a' as u32).unwrap_err(), InjectError::Paused);
    assert_eq!(b.inject_enter().unwrap_err(), InjectError::Paused);
    let events = b.drain_events();
    assert!(events.iter().all(|e| matches!(e, RecordedEvent::PausedRejected)));
    assert_eq!(events.len(), 3);
}

#[test]
fn virtual_backend_resumes_after_unpause() {
    let mut b = VirtualBackend::default();
    b.pause(true);
    assert!(b.is_paused());
    b.pause(false);
    b.inject_text("z").unwrap();
    assert_eq!(b.snapshot_events(), vec![RecordedEvent::Char('z' as u32)]);
}

#[test]
fn virtual_backend_permission_denied_propagates() {
    let mut b = VirtualBackend::deny_permission();
    let err = b.inject_codepoint('a' as u32).unwrap_err();
    assert_eq!(err, InjectError::PermissionDenied);
    assert_eq!(err.code(), "INJECT_PERMISSION_DENIED");
}

#[test]
fn virtual_backend_backend_error_propagates() {
    let mut b = VirtualBackend::with_backend_error("xkb-not-loaded".to_string());
    let err = b.inject_codepoint('a' as u32).unwrap_err();
    assert_eq!(err, InjectError::BackendError("xkb-not-loaded".to_string()));
    assert_eq!(err.code(), "INJECT_BACKEND_ERROR");
    assert_eq!(err.to_string(), "backend error: xkb-not-loaded");
}

#[test]
fn virtual_backend_focus_can_be_replaced() {
    let mut b = VirtualBackend::with_focus(FocusInfo { app: "notepad".into(), title: "t".into() });
    assert_eq!(b.current_focus_app().map(|f| f.app), Some("notepad".to_string()));
    b.set_focus(None);
    assert_eq!(b.inject_enter().unwrap_err(), InjectError::NoFocusTarget);
    assert_eq!(b.drain_events(), vec![RecordedEvent::NoFocusRejected]);
}

#[test]
fn virtual_backend_delay_round_trips() {
    let mut b = VirtualBackend::default();
    assert_eq!(b.delay_ms(), 0);
    b.set_delay_ms(40);
    assert_eq!(b.delay_ms(), 40);
}

#[test]
fn pause_state_round_trips() {
    let mut b = WinSendInputBackend::new();
    assert!(!b.is_paused());
    b.pause(true);
    assert!(b.is_paused());
    b.pause(false);
    assert!(!b.is_paused());
}

#[test]
fn delay_state_round_trips() {
    let mut b = WinSendInputBackend::new();
    assert_eq!(b.delay_ms(), 0);
    b.set_delay_ms(123);
    assert_eq!(b.delay_ms(), 123);
}

#[test]
fn paused_inject_returns_paused_error() {
    let mut b = WinSendInputBackend::new();
    b.pause(true);
    assert_eq!(b.inject_codepoint('a' as u32).unwrap_err(), InjectError::Paused);
    assert_eq!(b.inject_enter().unwrap_err(), InjectError::Paused);
}

#[test]
fn send_input_strokes_use_surrogate_pairs() {
    let mut b = WinSendInputBackend::new();
    assert_eq!(
        b.inject_codepoint('a' as u32).unwrap(),
        vec![KeyStroke::Unicode { scan: 0x61, key_up: false }, KeyStroke::Unicode { scan: 0x61, key_up: true }]
    );
    assert_eq!(
        b.inject_codepoint(0x1F980).unwrap(),
        vec![
            KeyStroke::Unicode { scan: 0xD83E, key_up: false },
            KeyStroke::Unicode { scan: 0xD83E, key_up: true },
            KeyStroke::Unicode { scan: 0xDD80, key_up: false },
            KeyStroke::Unicode { scan: 0xDD80, key_up: true },
        ]
    );
    assert_eq!(
        b.inject_enter().unwrap(),
        vec![KeyStroke::VirtualKey { vk: VK_RETURN, key_up: false }, KeyStroke::VirtualKey { vk: VK_RETURN, key_up: true }]
    );
}

#[derive(Default)]
struct CaptureSink {
    errors: Mutex<Vec<(String, String, Option<String>)>>,
    acks: Mutex<Vec<(Option<String>, usize)>>,
}

impl InjectorEventSink for CaptureSink {
    fn on_inject_error(&self, code: &str, message: &str, request_id: Option<&str>) {
        self.errors.lock().unwrap().push((code.to_string(), message.to_string(), request_id.map(str::to_string)));
    }
    fn on_inject_ack(&self, request_id: Option<&str>, chars: usize) {
        self.acks.lock().unwrap().push((request_id.map(str::to_string), chars));
    }
}

#[test]
fn multi_sink_fans_out_to_each_inner_sink() {
    let s1 = Arc::new(CaptureSink::default());
    let s2 = Arc::new(CaptureSink::default());
    let multi = MultiSink::new(vec![s1.clone(), s2.clone()]);
    multi.on_inject_ack(Some("r"), 3);
    assert_eq!(s1.acks.lock().unwrap().len(), 1);
    assert_eq!(s2.acks.lock().unwrap().len(), 1);
    multi.on_inject_error("INJECT_PAUSED", "paused", None);
    assert_eq!(s1.errors.lock().unwrap().len(), 1);
    assert_eq!(s2.errors.lock().unwrap().len(), 1);
}

#[test]
fn plan_injection_spaces_events_from_now() {
    let events = phonemic::injector::plan_injection("x\ny", 25);
    assert_eq!(events.len(), 3);
    assert_eq!(events[1].kind, EventKind::Enter);
    assert_eq!(events[2].ts - events[0].ts, 50);
}

#[test]
fn mac_backend_checks_pause_trust_and_scalar_values() {
    let mut b = CGEventBackend::default();
    assert_eq!(b.inject_codepoint('a' as u32, true).unwrap(), vec![0x61]);
    assert_eq!(b.inject_codepoint(0x1F980, true).unwrap(), vec![0xD83E, 0xDD80]);
    assert_eq!(b.inject_codepoint('a' as u32, false).unwrap_err(), InjectError::PermissionDenied);
    assert_eq!(
        b.inject_codepoint(0xD800, true).unwrap_err(),
        InjectError::BackendError("invalid codepoint U+D800".to_string())
    );
    assert_eq!(
        b.inject_codepoint(0x110000, true).unwrap_err(),
        InjectError::BackendError("invalid codepoint U+110000".to_string())
    );
    assert_eq!(b.inject_enter(true).unwrap(), KEY_CODE_RETURN);
    b.pause(true);
    assert_eq!(b.inject_enter(true).unwrap_err(), InjectError::Paused);
    assert_eq!(b.inject_codepoint('a' as u32, false).unwrap_err(), InjectError::Paused);
    b.set_delay_ms(7);
    assert_eq!(b.delay_ms(), 7);
    assert_eq!(b.current_focus_app().map(|f| f.app), Some("macos-frontmost".to_string()));
}

#[test]
fn inject_text_with_sink_emits_ack_on_success() {
    let mut injector = VirtualBackend::default();
    let sink = CaptureSink::default();
    let (outcome, report) = inject_text_with_sink(&mut injector, &sink, "hi", Some("req-1"));
    outcome.unwrap();
    assert_eq!(report, SinkReport::Ack { request_id: Some("req-1".into()), chars: 2 });
    let acks = sink.acks.lock().unwrap();
    assert_eq!(acks.len(), 1);
    assert_eq!(acks[0].0.as_deref(), Some("req-1"));
    assert_eq!(acks[0].1, 2);
    assert!(sink.errors.lock().unwrap().is_empty());
}

#[test]
fn inject_text_with_sink_emits_error_on_no_focus() {
    let mut injector = VirtualBackend::without_focus();
    let sink = CaptureSink::default();
    let (outcome, report) = inject_text_with_sink(&mut injector, &sink, "x", Some("req-2"));
    let err = outcome.unwrap_err();
    assert!(matches!(report, SinkReport::Error { .. }));
    assert_eq!(err.code(), "INJECT_NO_FOCUS_TARGET");
    let errors = sink.errors.lock().unwrap();
    assert_eq!(errors.len(), 1);
    assert_eq!(errors[0].0, "INJECT_NO_FOCUS_TARGET");
    assert_eq!(errors[0].1, "no focus target");
    assert_eq!(errors[0].2.as_deref(), Some("req-2"));
}

#[test]
fn x11_backend_maps_code_points_to_keysyms() {
    let mut b = phonemic::injector::X11XTestBackend::new(true);
    assert_eq!(b.inject_codepoint('a' as u32).unwrap(), 0x61);
    assert_eq!(b.inject_codepoint(0x4F60).unwrap(), 0x0100_4F60);
    assert_eq!(b.inject_enter().unwrap(), phonemic::injector::XK_RETURN);
    b.pause(true);
    assert_eq!(b.inject_enter().unwrap_err(), InjectError::Paused);
    let mut wayland = phonemic::injector::X11XTestBackend::new(false);
    assert_eq!(wayland.inject_codepoint(0x61).unwrap_err(), InjectError::BackendError("wayland_unsupported".into()));
    assert_eq!(phonemic::injector::codepoint_to_keysym(0x01000000), 0x01000000);
    assert_eq!(
        phonemic::injector::missing_keycode_error(0x1004F60),
        InjectError::BackendError("no keycode for keysym U+1004F60".into())
    );
    let f = phonemic::injector::x11_focus_info(0x3a0000b, Some("Editor".into())).unwrap();
    assert_eq!((f.app.as_str(), f.title.as_str()), ("x11-window-0x3a0000b", "Editor"));
    assert_eq!(phonemic::injector::x11_focus_info(0, None), None);
}

#[test]
fn windows_focus_falls_back_to_pid() {
    let f = phonemic::injector::win_focus_info(4242, None, "Doc".into());
    assert_eq!((f.app.as_str(), f.title.as_str()), ("pid:4242", "Doc"));
    let g = phonemic::injector::win_focus_info(1, Some("notepad.exe".into()), String::new());
    assert_eq!(g.app, "notepad.exe");
}

#[test]
fn virtual_backend_focus_contents_are_kept() {
    let mut b = VirtualBackend::deny_permission();
    assert!(!b.is_paused());
    assert_eq!(
        b.current_focus_app(),
        Some(FocusInfo { app: "virtual-app".into(), title: "virtual-window".into() })
    );
    assert_eq!(b.inject_codepoint('a' as u32).unwrap_err(), InjectError::PermissionDenied);
    assert_eq!(b.drain_events(), vec![RecordedEvent::PermissionRejected]);
    assert!(b.drain_events().is_empty());
    assert_eq!(b.current_focus_app().map(|f| f.title), Some("virtual-window".to_string()));
    let fresh = VirtualBackend::without_focus();
    assert_eq!(fresh.current_focus_app(), None);
    assert_eq!(fresh.delay_ms(), 0);
    assert!(fresh.snapshot_events().is_empty());
}

#[test]
fn sink_reports_follow_the_outcome() {
    assert_eq!(
        sink_report(&Ok(()), "hi", Some("req-1")),
        SinkReport::Ack { request_id: Some("req-1".into()), chars: 2 }
    );
    assert_eq!(
        sink_report(&Err(InjectError::NoFocusTarget), "x", None),
        SinkReport::Error { code: "INJECT_NO_FOCUS_TARGET".into(), message: "no focus target".into(), request_id: None }
    );
}

#[test]
fn text_steps_wait_between_keys() {
    assert_eq!(text_injection_steps(true, true, 5, "a"), Err(InjectError::Paused));
    assert_eq!(text_injection_steps(false, false, 5, "a"), Err(InjectError::NoFocusTarget));
    assert_eq!(
        text_injection_steps(false, true, 5, "a\n"),
        Ok(vec![
            TextStep { wait_ms: 0, key: EventKind::Char('a' as u32) },
            TextStep { wait_ms: 5, key: EventKind::Enter },
        ])
    );
}

#[test]
fn send_input_high_code_points_within_the_sum() {
    let mut b = WinSendInputBackend::new();
    let strokes = b.inject_codepoint(0x300000).unwrap();
    assert_eq!(strokes[0], KeyStroke::Unicode { scan: 0xE3C0, key_up: false });
    b.pause(true);
    assert_eq!(b.inject_codepoint(0xFFFF_FFFF).unwrap_err(), InjectError::Paused);
}

#[test]
fn planner_from_the_clock_spaces_events() {
    let p = InjectionPlanner::new(3);
    assert_eq!(p.delay_ms, 3);
    let events = p.plan("ab");
    assert_eq!(events[1].ts - events[0].ts, 3);
}

#[test]
fn text_run_sends_each_step_then_finishes() {
    assert_eq!(TextRun::start(true, true, 5, "a").unwrap_err(), InjectError::Paused);
    assert_eq!(TextRun::start(false, false, 5, "a").unwrap_err(), InjectError::NoFocusTarget);
    let mut run = TextRun::start(false, true, 5, "a\n").unwrap();
    assert_eq!(run.next(Ok(())), RunAction::Send(TextStep { wait_ms: 0, key: EventKind::Char('a' as u32) }));
    assert_eq!(run.next(Ok(())), RunAction::Send(TextStep { wait_ms: 5, key: EventKind::Enter }));
    assert_eq!(run.next(Ok(())), RunAction::Finish(Ok(())));
}

#[test]
fn text_run_stops_at_the_first_refused_key() {
    let mut run = TextRun::start(false, true, 0, "abc").unwrap();
    assert_eq!(run.next(Ok(())), RunAction::Send(TextStep { wait_ms: 0, key: EventKind::Char('a' as u32) }));
    let refused = InjectError::BackendError("SendInput failed".into());
    assert_eq!(run.next(Err(refused.clone())), RunAction::Finish(Err(refused.clone())));
    assert_eq!(run.next(Err(refused.clone())), RunAction::Finish(Err(refused)));
}

#[test]
fn empty_text_run_finishes_at_once() {
    let mut run = TextRun::start(false, true, 9, "").unwrap();
    assert_eq!(run.next(Ok(())), RunAction::Finish(Ok(())));
}
