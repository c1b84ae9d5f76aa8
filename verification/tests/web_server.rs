use phonemic::bridge_events::{BridgeEvent, PortUnavailableEvent};
use phonemic::dispatcher::RoutedKind;
use phonemic::error_code::ErrorCode;
use phonemic::session::SessionRegistry;
use phonemic::web_server::{
    authorize_upgrade, bind_failure_event, frame_action, startup_port, upgrade_refusal_text,
    FrameAction, StartupError, UpgradeRefusal, WsFrame,
};

#[test]
fn startup_port_prefers_the_configured_port() {
    assert_eq!(startup_port(18080), Ok(18080));
    assert_eq!(startup_port(80), Ok(1024));
}

#[test]
fn startup_errors_are_port_problems() {
    let e = StartupError::PortUnavailable { preferred: 18080 };
    assert_eq!(e.error_code(), ErrorCode::PortUnavailable);
    assert_eq!(e.to_string(), "PORT_UNAVAILABLE: preferred port 18080 occupied and no fallback succeeded");
    let b = StartupError::Bind("address in use".into());
    assert_eq!(b.to_string(), "bind failed: address in use");
    assert_eq!(
        bind_failure_event(18080),
        BridgeEvent::PortUnavailable(PortUnavailableEvent { preferred_port: 18080 })
    );
}

#[test]
fn upgrade_needs_a_live_43_byte_token() {
    let mut reg = SessionRegistry::new();
    let token = reg.issue("fp".into(), "label".into(), 1_000);
    assert_eq!(authorize_upgrade(&reg, None).err(), Some(UpgradeRefusal::MissingProtocol));
    assert_eq!(authorize_upgrade(&reg, Some("json")).err(), Some(UpgradeRefusal::MissingProtocol));
    assert_eq!(authorize_upgrade(&reg, Some("phonemic.short")).err(), Some(UpgradeRefusal::InvalidLength));
    let unknown = format!("phonemic.{}", "A".repeat(43));
    assert_eq!(authorize_upgrade(&reg, Some(&unknown)).err(), Some(UpgradeRefusal::InvalidSession));
    let offered = format!("json, phonemic.{}", token.as_str());
    let (echo, tok) = match authorize_upgrade(&reg, Some(&offered)) {
        Ok(p) => p,
        Err(e) => panic!("live token refused: {e:?}"),
    };
    assert_eq!(echo, format!("phonemic.{}", token.as_str()));
    assert_eq!(tok.as_str(), token.as_str());
    assert_eq!(upgrade_refusal_text(UpgradeRefusal::InvalidLength), "invalid token length");
}

#[test]
fn frames_are_handled_by_kind() {
    assert_eq!(
        frame_action(WsFrame::Text(Some(RoutedKind::Ping))),
        FrameAction::Handle { kind: RoutedKind::Ping, reply: true }
    );
    assert_eq!(
        frame_action(WsFrame::Text(Some(RoutedKind::TextSubmit))),
        FrameAction::Handle { kind: RoutedKind::TextSubmit, reply: false }
    );
    assert_eq!(
        frame_action(WsFrame::Text(None)),
        FrameAction::Reject { code: ErrorCode::MsgBadFormat, binary: false }
    );
    assert_eq!(frame_action(WsFrame::Binary), FrameAction::Reject { code: ErrorCode::MsgBadFormat, binary: true });
    assert_eq!(frame_action(WsFrame::Ping(vec![1, 2])), FrameAction::Pong(vec![1, 2]));
    assert_eq!(frame_action(WsFrame::Close), FrameAction::Ignore);
}
