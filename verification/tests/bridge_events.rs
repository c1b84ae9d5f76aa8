use phonemic::bridge_events::{
    event_payload, EventPayload,
    event_channel, inject_error_code_of, AsrTimeoutEvent, BridgeEvent, InjectErrorEvent,
    PortUnavailableEvent, DEFAULT_CHANNEL_CAPACITY,
};
use phonemic::error_code::ErrorCode;

#[test]
fn inject_error_event_is_clone_and_eq() {
    let e = BridgeEvent::InjectError(InjectErrorEvent {
        submit_id: "s1".into(),
        code: ErrorCode::InjectPaused,
        message: "paused".into(),
    });
    let cloned = e.clone();
    assert_eq!(e, cloned);
}

#[test]
fn events_are_routed_to_their_channels() {
    assert_eq!(event_channel(&BridgeEvent::LanLost), "phonemic://lan-changed");
    assert_eq!(event_channel(&BridgeEvent::LanRestored), "phonemic://lan-changed");
    assert_eq!(
        event_channel(&BridgeEvent::PortUnavailable(PortUnavailableEvent { preferred_port: 18080 })),
        "phonemic://port-unavailable"
    );
    assert_eq!(
        event_channel(&BridgeEvent::AsrTimeout(AsrTimeoutEvent { segment_id: "x".into() })),
        "phonemic://asr-error"
    );
    assert_eq!(DEFAULT_CHANNEL_CAPACITY, 256);
}

#[test]
fn inject_error_codes_fall_back_to_backend_error() {
    assert_eq!(inject_error_code_of("INJECT_PAUSED"), ErrorCode::InjectPaused);
    assert_eq!(inject_error_code_of("SOMETHING_ELSE"), ErrorCode::InjectBackendError);
}

#[test]
fn forward_bridge_events_payloads() {
    let paired = BridgeEvent::DevicePaired(phonemic::bridge_events::DevicePairedEvent {
        device_id: "abcd".into(),
        device_label: "iPhone".into(),
        peer_ip: phonemic::net::IpAddr::V4(phonemic::net::Ipv4Addr::new(192, 168, 1, 100)),
        paired_at: 100_000,
    });
    assert_eq!(
        event_payload(&paired),
        EventPayload::SessionAdded { device_id: "abcd".into(), device_label: "iPhone".into() }
    );
    let revoked = BridgeEvent::DeviceRevoked(phonemic::bridge_events::DeviceRevokedEvent {
        device_ids: vec!["a".into(), "b".into()],
        revoked_at: 0,
    });
    assert_eq!(event_payload(&revoked), EventPayload::SessionRevoked { device_ids: vec!["a".into(), "b".into()] });
    let inject = BridgeEvent::InjectError(InjectErrorEvent {
        submit_id: "m-1".into(),
        code: ErrorCode::InjectPaused,
        message: "paused".into(),
    });
    assert_eq!(
        event_payload(&inject),
        EventPayload::InjectError { code: "INJECT_PAUSED".into(), message: "paused".into(), request_id: "m-1".into() }
    );
    assert_eq!(
        event_payload(&BridgeEvent::AsrTimeout(AsrTimeoutEvent { segment_id: "s".into() })),
        EventPayload::AsrError { code: "ASR_TIMEOUT".into(), segment_id: "s".into() }
    );
    assert_eq!(
        event_payload(&BridgeEvent::PortUnavailable(PortUnavailableEvent { preferred_port: 18080 })),
        EventPayload::PortUnavailable { preferred_port: 18080 }
    );
    assert_eq!(event_payload(&BridgeEvent::LanLost), EventPayload::LanChanged { disabled: true, ips: Some(vec![]) });
    assert_eq!(event_payload(&BridgeEvent::LanRestored), EventPayload::LanChanged { disabled: false, ips: None });
    assert_eq!(event_channel(&inject), "phonemic://inject-error");
}
