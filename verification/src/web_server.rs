//! Start-up decisions of the web server: the port to bind, and what a failed
//! bind reports; and the WebSocket upgrade and frame rules.

use vstd::prelude::*;
use vstd::utf8::*;
use vstd::string::StringExecFns;
use std::collections::HashSet;
use crate::bridge_events::{BridgeEvent, PortUnavailableEvent};
use crate::dispatcher::{decide_dispatch, dispatch, DispatchDecision, RoutedKind};
use crate::error_code::ErrorCode;
use crate::middleware::{first_protocol_token, split_commas, extract_ws_protocol_token};
use crate::port_select::{port_choice, select_port};
use crate::session::{SessionRegistry, SessionToken};
use crate::text::{byte_len, decimal, push_decimal};

verus! {

/// Why the server did not start.
#[derive(Debug, Clone, PartialEq, Eq)]
pub enum StartupError {
    /// No port could be chosen.
    PortUnavailable { preferred: u16 },
    /// Binding the chosen port failed; the system's message.
    Bind(String),
}

impl StartupError {
    /// The client-facing code: every start-up failure is a port problem.
    pub fn error_code(&self) -> (r: ErrorCode)
        ensures
            r == ErrorCode::PortUnavailable,
    {
        ErrorCode::PortUnavailable
    }

    /// The message.
    pub fn to_string(&self) -> (r: String)
        ensures
            r@ == match self {
                StartupError::PortUnavailable { preferred } => "PORT_UNAVAILABLE: preferred port "@
                    + decimal(*preferred as nat) + " occupied and no fallback succeeded"@,
                StartupError::Bind(m) => "bind failed: "@ + m@,
            },
    {
        match self {
            StartupError::PortUnavailable { preferred } => {
                let mut s = String::from_str("PORT_UNAVAILABLE: preferred port ");
                push_decimal(&mut s, *preferred as u64);
                s.append(" occupied and no fallback succeeded");
                s
            },
            StartupError::Bind(m) => {
                let mut s = String::from_str("bind failed: ");
                s.append(m.as_str());
                s
            },
        }
    }
}

/// The port the server binds: chosen by `select_port` with nothing known to
/// be occupied.
pub fn startup_port(preferred: u16) -> (r: Result<u16, StartupError>)
    ensures
        r matches Ok(p) ==> port_choice(preferred, Set::<u16>::empty(), Some(p)),
        r is Err ==> port_choice(preferred, Set::<u16>::empty(), None) && r == Err::<u16, StartupError>(
            StartupError::PortUnavailable { preferred },
        ),
{
    let occupied: HashSet<u16> = HashSet::new();
    match select_port(preferred, &occupied) {
        Some(p) => Ok(p),
        None => Err(StartupError::PortUnavailable { preferred }),
    }
}

/// What a failed bind announces to the shell.
pub fn bind_failure_event(preferred_port: u16) -> (r: BridgeEvent)
    ensures
        r == BridgeEvent::PortUnavailable(PortUnavailableEvent { preferred_port }),
{
    BridgeEvent::PortUnavailable(PortUnavailableEvent { preferred_port })
}

/// Why a WebSocket upgrade was refused (all with 401).
#[derive(Debug, Clone, Copy, PartialEq, Eq, Structural)]
pub enum UpgradeRefusal {
    MissingProtocol,
    InvalidLength,
    InvalidSession,
}

/// The body text of a refused upgrade.
pub fn upgrade_refusal_text(r: UpgradeRefusal) -> (s: &'static str)
    ensures
        s@ == match r {
            UpgradeRefusal::MissingProtocol => "missing phonemic.<token> protocol"@,
            UpgradeRefusal::InvalidLength => "invalid token length"@,
            UpgradeRefusal::InvalidSession => "invalid session token"@,
        },
{
    match r {
        UpgradeRefusal::MissingProtocol => "missing phonemic.<token> protocol",
        UpgradeRefusal::InvalidLength => "invalid token length",
        UpgradeRefusal::InvalidSession => "invalid session token",
    }
}

/// Whether a WebSocket upgrade may proceed: its subprotocols must carry a
/// 43-byte token of a live session. On success the subprotocol to echo,
/// `phonemic.<token>`, and the token.
pub fn authorize_upgrade(registry: &SessionRegistry, protocols: Option<&str>) -> (r: Result<(String, SessionToken), UpgradeRefusal>)
    requires
        registry.wf(),
    ensures
        ({
            let tok = match protocols {
                Some(v) => first_protocol_token(split_commas(v@)),
                None => None,
            };
            match tok {
                None => r == Err::<(String, SessionToken), UpgradeRefusal>(UpgradeRefusal::MissingProtocol),
                Some(t) => if encode_utf8(t).len() != 43 {
                    r == Err::<(String, SessionToken), UpgradeRefusal>(UpgradeRefusal::InvalidLength)
                } else if !registry.live().contains_key(t) {
                    r == Err::<(String, SessionToken), UpgradeRefusal>(UpgradeRefusal::InvalidSession)
                } else {
                    r matches Ok(p) && p.0@ == "phonemic."@ + t && p.1@ == t
                },
            }
        }),
{
    let token_str = match extract_ws_protocol_token(protocols) {
        Some(t) => t,
        None => {
            return Err(UpgradeRefusal::MissingProtocol);
        },
    };
    if byte_len(token_str.as_str()) != 43 {
        return Err(UpgradeRefusal::InvalidLength);
    }
    let mut echoed = String::from_str("phonemic.");
    echoed.append(token_str.as_str());
    let token = SessionToken::from_validated(token_str);
    if registry.validate(&token).is_err() {
        return Err(UpgradeRefusal::InvalidSession);
    }
    Ok((echoed, token))
}

/// A frame read from a WebSocket, with what the server needs of it.
#[derive(Debug, Clone, PartialEq, Eq)]
pub enum WsFrame {
    /// A text frame, with the kind of client message it holds when it
    /// parses and validates.
    Text(Option<RoutedKind>),
    Binary,
    Ping(Vec<u8>),
    Pong,
    Close,
}

/// What the server does with one frame.
#[derive(Debug, Clone, PartialEq, Eq)]
pub enum FrameAction {
    /// Handle a routed message; `reply` says whether it is answered.
    Handle { kind: RoutedKind, reply: bool },
    /// Answer with an error message.
    Reject { code: ErrorCode, binary: bool },
    /// Answer a ping with the same payload.
    Pong(Vec<u8>),
    /// Nothing to do.
    Ignore,
}

/// The action for a frame on an authenticated socket: text goes through the
/// dispatcher, binary frames are refused as malformed, pings are answered.
pub fn frame_action(frame: WsFrame) -> (r: FrameAction)
    ensures
        match frame {
            WsFrame::Text(parsed) => match dispatch(parsed, true) {
                DispatchDecision::Route(k) => r == FrameAction::Handle {
                    kind: k,
                    reply: k == RoutedKind::Hello || k == RoutedKind::Ping,
                },
                DispatchDecision::Reject(c) => r == FrameAction::Reject { code: c, binary: false },
            },
            WsFrame::Binary => r == FrameAction::Reject { code: ErrorCode::MsgBadFormat, binary: true },
            WsFrame::Ping(p) => r matches FrameAction::Pong(q) && q@ == p@,
            WsFrame::Pong => r == FrameAction::Ignore,
            WsFrame::Close => r == FrameAction::Ignore,
        },
{
    match frame {
        WsFrame::Text(parsed) => match decide_dispatch(parsed, true) {
            DispatchDecision::Route(k) => FrameAction::Handle {
                kind: k,
                reply: crate::dispatcher::has_reply(k),
            },
            DispatchDecision::Reject(c) => FrameAction::Reject { code: c, binary: false },
        },
        WsFrame::Binary => FrameAction::Reject { code: ErrorCode::MsgBadFormat, binary: true },
        WsFrame::Ping(p) => FrameAction::Pong(p),
        WsFrame::Pong => FrameAction::Ignore,
        WsFrame::Close => FrameAction::Ignore,
    }
}

} // verus!
