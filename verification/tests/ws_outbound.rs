use phonemic::session::SessionToken;
use phonemic::ws_outbound::{is_recipient, SessionTarget, WsOutboundError};

#[test]
fn targets_select_sockets() {
    let a = SessionToken::from_validated("A".repeat(43));
    let b = SessionToken::from_validated("B".repeat(43));
    assert!(is_recipient(&SessionTarget::Broadcast, &a));
    assert!(is_recipient(&SessionTarget::One(a.clone()), &a));
    assert!(!is_recipient(&SessionTarget::One(a), &b));
}

#[test]
fn outbound_errors_have_messages() {
    assert_eq!(WsOutboundError::NotConnected.to_string(), "session not connected");
    assert_eq!(WsOutboundError::SendFailed("eof".into()).to_string(), "websocket send failed: eof");
    assert_eq!(WsOutboundError::ServerStopped.to_string(), "server shutting down");
}
