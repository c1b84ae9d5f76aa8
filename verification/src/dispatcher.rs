//! Routing of client WebSocket messages: which are refused, which need a
//! session, and which get a reply.

use vstd::prelude::*;
use vstd::string::StringSliceAdditionalSpecFns;
use crate::error_code::ErrorCode;
use crate::text::same_text;

verus! {

/// The kinds of message a phone sends.
#[derive(Debug, Clone, Copy, PartialEq, Eq, Structural)]
pub enum RoutedKind {
    Hello,
    TextSubmit,
    TextPreview,
    AudioChunk,
    AudioEnd,
    Ping,
}

/// What happens to one incoming message.
#[derive(Debug, Clone, Copy, PartialEq, Eq, Structural)]
pub enum DispatchDecision {
    /// Handled as a message of this kind.
    Route(RoutedKind),
    /// Refused with an error message carrying this code.
    Reject(ErrorCode),
}

/// The routing rule: a message that does not parse or validate is refused as
/// malformed; any message but `hello` needs an authenticated session;
/// everything else is routed by its kind.
pub open spec fn dispatch(parsed: Option<RoutedKind>, has_authenticated_session: bool) -> DispatchDecision {
    match parsed {
        None => DispatchDecision::Reject(ErrorCode::MsgBadFormat),
        Some(k) => if k != RoutedKind::Hello && !has_authenticated_session {
            DispatchDecision::Reject(ErrorCode::AuthRequired)
        } else {
            DispatchDecision::Route(k)
        },
    }
}

/// Decides what to do with one message, given its kind when it parsed and
/// validated (`None` otherwise) and whether the socket has a session.
pub fn decide_dispatch(parsed: Option<RoutedKind>, has_authenticated_session: bool) -> (r: DispatchDecision)
    ensures
        r == dispatch(parsed, has_authenticated_session),
{
    match parsed {
        None => DispatchDecision::Reject(ErrorCode::MsgBadFormat),
        Some(k) => {
            let needs_session = match k {
                RoutedKind::Hello => false,
                _ => true,
            };
            if needs_session && !has_authenticated_session {
                DispatchDecision::Reject(ErrorCode::AuthRequired)
            } else {
                DispatchDecision::Route(k)
            }
        },
    }
}

/// Whether a routed message is answered directly: `hello` with a welcome,
/// `ping` with a pong.
pub fn has_reply(kind: RoutedKind) -> (r: bool)
    ensures
        r == (kind == RoutedKind::Hello || kind == RoutedKind::Ping),
{
    match kind {
        RoutedKind::Hello => true,
        RoutedKind::Ping => true,
        _ => false,
    }
}

/// Without a session only `hello` gets through; everything else is refused
/// as unauthenticated, and a malformed message never gets through.
pub proof fn lemma_session_gate(parsed: Option<RoutedKind>)
    ensures
        dispatch(parsed, false) matches DispatchDecision::Route(k) ==> k == RoutedKind::Hello,
        dispatch(None, true) == DispatchDecision::Reject(ErrorCode::MsgBadFormat),
        dispatch(None, false) == DispatchDecision::Reject(ErrorCode::MsgBadFormat),
{
}


/// The dispatcher the server uses: the routing rule, with no state.
#[derive(Debug, Default, Clone, Copy)]
pub struct DefaultDispatcher;

impl DefaultDispatcher {
    /// Decides what to do with one message (see `decide_dispatch`).
    pub fn handle(&self, parsed: Option<RoutedKind>, has_authenticated_session: bool) -> (r: DispatchDecision)
        ensures
            r == dispatch(parsed, has_authenticated_session),
    {
        decide_dispatch(parsed, has_authenticated_session)
    }
}

/// Why a well-formed JSON message is refused before it is routed.
#[derive(Debug, Clone, Copy, PartialEq, Eq, Structural)]
pub enum MessageRefusal {
    /// Its `type` names no client message.
    UnknownType,
    /// A `text.submit` whose `text` is missing or empty.
    EmptyText,
}

/// The kind of a client message from its `type` and, for `text.submit`,
/// the text it carries.
pub open spec fn message_kind(kind: Seq<char>, submit_text: Option<Seq<char>>) -> Result<RoutedKind, MessageRefusal> {
    if kind == "hello"@ {
        Ok(RoutedKind::Hello)
    } else if kind == "text.submit"@ {
        match submit_text {
            Some(t) if t.len() > 0 => Ok(RoutedKind::TextSubmit),
            _ => Err(MessageRefusal::EmptyText),
        }
    } else if kind == "text.preview"@ {
        Ok(RoutedKind::TextPreview)
    } else if kind == "audio.chunk"@ {
        Ok(RoutedKind::AudioChunk)
    } else if kind == "audio.end"@ {
        Ok(RoutedKind::AudioEnd)
    } else if kind == "ping"@ {
        Ok(RoutedKind::Ping)
    } else {
        Err(MessageRefusal::UnknownType)
    }
}

/// Classifies a parsed client message by its `type`; a `text.submit` must
/// carry a non-empty text.
pub fn classify_message(kind: &str, submit_text: Option<&str>) -> (r: Result<RoutedKind, MessageRefusal>)
    ensures
        r == message_kind(
            kind@,
            match submit_text {
                Some(t) => Some(t@),
                None => None,
            },
        ),
{
    if same_text(kind, "hello") {
        Ok(RoutedKind::Hello)
    } else if same_text(kind, "text.submit") {
        match submit_text {
            Some(t) => {
                if t.unicode_len() > 0 {
                    Ok(RoutedKind::TextSubmit)
                } else {
                    Err(MessageRefusal::EmptyText)
                }
            },
            None => Err(MessageRefusal::EmptyText),
        }
    } else if same_text(kind, "text.preview") {
        Ok(RoutedKind::TextPreview)
    } else if same_text(kind, "audio.chunk") {
        Ok(RoutedKind::AudioChunk)
    } else if same_text(kind, "audio.end") {
        Ok(RoutedKind::AudioEnd)
    } else if same_text(kind, "ping") {
        Ok(RoutedKind::Ping)
    } else {
        Err(MessageRefusal::UnknownType)
    }
}

} // verus!
