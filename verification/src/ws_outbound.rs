//! Messages pushed from the desktop to connected phones: where they go and
//! how sending can fail.

use vstd::prelude::*;
use vstd::string::StringExecFns;
use crate::session::SessionToken;

verus! {

/// The phones a message is for.
pub enum SessionTarget {
    /// The phone holding this session.
    One(SessionToken),
    /// Every connected phone.
    Broadcast,
}

/// Why a message was not delivered.
#[derive(Debug, Clone, PartialEq, Eq)]
pub enum WsOutboundError {
    /// The session has no open socket.
    NotConnected,
    /// Writing to the socket failed; the reason.
    SendFailed(String),
    /// The server is shutting down.
    ServerStopped,
}

impl WsOutboundError {
    /// The message.
    pub fn to_string(&self) -> (r: String)
        ensures
            r@ == match self {
                WsOutboundError::NotConnected => "session not connected"@,
                WsOutboundError::SendFailed(m) => "websocket send failed: "@ + m@,
                WsOutboundError::ServerStopped => "server shutting down"@,
            },
    {
        match self {
            WsOutboundError::NotConnected => String::from_str("session not connected"),
            WsOutboundError::SendFailed(m) => {
                let mut s = String::from_str("websocket send failed: ");
                s.append(m.as_str());
                s
            },
            WsOutboundError::ServerStopped => String::from_str("server shutting down"),
        }
    }
}

/// Whether a socket whose session is `socket_token` receives a message for
/// `target`.
pub open spec fn delivers_to(target: SessionTarget, socket_token: Seq<char>) -> bool {
    match target {
        SessionTarget::One(t) => t@ == socket_token,
        SessionTarget::Broadcast => true,
    }
}

/// Whether the socket of session `socket_token` receives a message for
/// `target`: every socket for a broadcast, only its own for one session.
pub fn is_recipient(target: &SessionTarget, socket_token: &SessionToken) -> (r: bool)
    ensures
        r == delivers_to(*target, socket_token@),
{
    match target {
        SessionTarget::One(t) => crate::text::same_text(t.as_str(), socket_token.as_str()),
        SessionTarget::Broadcast => true,
    }
}

} // verus!
