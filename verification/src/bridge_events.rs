//! Events the web layer hands to the desktop shell, and the channel each is
//! shown on.

use vstd::prelude::*;
use vstd::string::StringExecFns;
use crate::text::texts;
use crate::error_code::ErrorCode;
use crate::net::IpAddr;

verus! {

/// Capacity of the event channel between the web layer and the shell.
pub const DEFAULT_CHANNEL_CAPACITY: usize = 256;

/// A phone paired.
#[derive(Debug, Clone, PartialEq, Eq)]
pub struct DevicePairedEvent {
    pub device_id: String,
    pub device_label: String,
    pub peer_ip: IpAddr,
    /// When it paired (ms since the Unix epoch).
    pub paired_at: u64,
}

/// Devices were revoked.
#[derive(Debug, Clone, PartialEq, Eq)]
pub struct DeviceRevokedEvent {
    pub device_ids: Vec<String>,
    /// When (ms since the Unix epoch).
    pub revoked_at: u64,
}

/// An injection failed.
#[derive(Debug, Clone, PartialEq, Eq)]
pub struct InjectErrorEvent {
    pub submit_id: String,
    pub code: ErrorCode,
    pub message: String,
}

/// Speech recognition gave no result in time.
#[derive(Debug, Clone, PartialEq, Eq)]
pub struct AsrTimeoutEvent {
    pub segment_id: String,
}

/// The preferred port was taken.
#[derive(Debug, Clone, PartialEq, Eq)]
pub struct PortUnavailableEvent {
    pub preferred_port: u16,
}

/// Everything the web layer reports to the shell.
#[derive(Debug, Clone, PartialEq, Eq)]
pub enum BridgeEvent {
    DevicePaired(DevicePairedEvent),
    DeviceRevoked(DeviceRevokedEvent),
    InjectError(InjectErrorEvent),
    AsrTimeout(AsrTimeoutEvent),
    PortUnavailable(PortUnavailableEvent),
    LanLost,
    LanRestored,
}

/// The shell channel an event is shown on.
pub open spec fn event_channel_text(evt: BridgeEvent) -> Seq<char> {
    match evt {
        BridgeEvent::DevicePaired(_) => "phonemic://session-changed"@,
        BridgeEvent::DeviceRevoked(_) => "phonemic://session-changed"@,
        BridgeEvent::InjectError(_) => "phonemic://inject-error"@,
        BridgeEvent::AsrTimeout(_) => "phonemic://asr-error"@,
        BridgeEvent::PortUnavailable(_) => "phonemic://port-unavailable"@,
        BridgeEvent::LanLost => "phonemic://lan-changed"@,
        BridgeEvent::LanRestored => "phonemic://lan-changed"@,
    }
}

/// The shell channel an event is shown on.
pub fn event_channel(evt: &BridgeEvent) -> (r: &'static str)
    ensures
        r@ == event_channel_text(*evt),
{
    match evt {
        BridgeEvent::DevicePaired(_) => "phonemic://session-changed",
        BridgeEvent::DeviceRevoked(_) => "phonemic://session-changed",
        BridgeEvent::InjectError(_) => "phonemic://inject-error",
        BridgeEvent::AsrTimeout(_) => "phonemic://asr-error",
        BridgeEvent::PortUnavailable(_) => "phonemic://port-unavailable",
        BridgeEvent::LanLost => "phonemic://lan-changed",
        BridgeEvent::LanRestored => "phonemic://lan-changed",
    }
}

/// The code an injection failure reported as text is filed under: the code
/// it names, or a backend error when it names none.
pub fn inject_error_code_of(code: &str) -> (r: ErrorCode)
    ensures
        (exists|c: ErrorCode| crate::error_code::code_text(c) == code@) ==> crate::error_code::code_text(r) == code@,
        (forall|c: ErrorCode| crate::error_code::code_text(c) != code@) ==> r == ErrorCode::InjectBackendError,
{
    match ErrorCode::parse(code) {
        Some(c) => c,
        None => ErrorCode::InjectBackendError,
    }
}


/// The fields the shell shows for an event.
#[derive(Debug, Clone, PartialEq, Eq)]
pub enum EventPayload {
    /// A device was added to the session list.
    SessionAdded { device_id: String, device_label: String },
    /// Devices were revoked.
    SessionRevoked { device_ids: Vec<String> },
    /// An injection failed: code, message and the request it answered.
    InjectError { code: String, message: String, request_id: String },
    /// Recognition failed for a segment.
    AsrError { code: String, segment_id: String },
    /// The preferred port was taken.
    PortUnavailable { preferred_port: u16 },
    /// The LAN changed: scanning off (with no addresses) or on again.
    LanChanged { disabled: bool, ips: Option<Vec<String>> },
}

/// `p` is the payload of `evt`: an added or revoked session with the device
/// ids (and label), an injection error with its code, message and request
/// id, an ASR timeout, the preferred port, or the LAN flag.
pub open spec fn payload_of(evt: BridgeEvent, p: EventPayload) -> bool {
    match evt {
        BridgeEvent::DevicePaired(e) => p matches EventPayload::SessionAdded { device_id, device_label }
            && device_id@ == e.device_id@ && device_label@ == e.device_label@,
        BridgeEvent::DeviceRevoked(e) => p matches EventPayload::SessionRevoked { device_ids } && texts(
            device_ids@,
        ) == texts(e.device_ids@),
        BridgeEvent::InjectError(e) => p matches EventPayload::InjectError { code, message, request_id }
            && code@ == crate::error_code::code_text(e.code) && message@ == e.message@ && request_id@
            == e.submit_id@,
        BridgeEvent::AsrTimeout(e) => p matches EventPayload::AsrError { code, segment_id } && code@
            == "ASR_TIMEOUT"@ && segment_id@ == e.segment_id@,
        BridgeEvent::PortUnavailable(e) => p matches EventPayload::PortUnavailable { preferred_port }
            && preferred_port == e.preferred_port,
        BridgeEvent::LanLost => p matches EventPayload::LanChanged { disabled, ips } && disabled
            && (ips matches Some(v) && v@.len() == 0),
        BridgeEvent::LanRestored => p matches EventPayload::LanChanged { disabled, ips } && !disabled
            && ips is None,
    }
}

fn copy_texts(v: &Vec<String>) -> (r: Vec<String>)
    ensures
        texts(r@) == texts(v@),
{
    let mut out: Vec<String> = Vec::new();
    let mut i: usize = 0;
    while i < v.len()
        invariant
            i <= v@.len(),
            out@.len() == i,
            forall|k: int| 0 <= k < i ==> (#[trigger] out@[k])@ == v@[k]@,
        decreases v@.len() - i,
    {
        out.push(String::from_str(v[i].as_str()));
        i = i + 1;
    }
    assert(texts(out@) =~= texts(v@));
    out
}

/// The payload the shell shows for `evt`, on the channel `event_channel`
/// names.
pub fn event_payload(evt: &BridgeEvent) -> (r: EventPayload)
    ensures
        payload_of(*evt, r),
{
    match evt {
        BridgeEvent::DevicePaired(e) => EventPayload::SessionAdded {
            device_id: String::from_str(e.device_id.as_str()),
            device_label: String::from_str(e.device_label.as_str()),
        },
        BridgeEvent::DeviceRevoked(e) => EventPayload::SessionRevoked { device_ids: copy_texts(&e.device_ids) },
        BridgeEvent::InjectError(e) => EventPayload::InjectError {
            code: String::from_str(e.code.as_str()),
            message: String::from_str(e.message.as_str()),
            request_id: String::from_str(e.submit_id.as_str()),
        },
        BridgeEvent::AsrTimeout(e) => EventPayload::AsrError {
            code: String::from_str("ASR_TIMEOUT"),
            segment_id: String::from_str(e.segment_id.as_str()),
        },
        BridgeEvent::PortUnavailable(e) => EventPayload::PortUnavailable { preferred_port: e.preferred_port },
        BridgeEvent::LanLost => EventPayload::LanChanged { disabled: true, ips: Some(Vec::new()) },
        BridgeEvent::LanRestored => EventPayload::LanChanged { disabled: false, ips: None },
    }
}

} // verus!
