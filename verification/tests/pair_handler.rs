use phonemic::error_code::ErrorCode;
use phonemic::net::{IpAddr, Ipv4Addr};
use phonemic::pair_handler::handle_pair;
use phonemic::pairing_service::PairingService;
use phonemic::session::{derive_device_id, DeviceFingerprint, SessionToken};

const NOW_MS: u64 = 1_704_067_200_000; // 2024-01-01T00:00:00Z
const MONO: u64 = 9_000_000_000_000;

fn peer() -> IpAddr {
    IpAddr::V4(Ipv4Addr::new(192, 168, 1, 20))
}

fn wrong_code(svc: &PairingService) -> String {
    if svc.current_pairing_code().as_str() == "ABCDJKMN" {
        "ABCDJKMP".to_string()
    } else {
        "ABCDJKMN".to_string()
    }
}

#[test]
fn pair_endpoint_accepts_correct_code() {
    let mut svc = PairingService::new();
    let code = svc.current_pairing_code().as_str().to_owned();
    let ok = handle_pair(&mut svc, &code, "fp-1".into(), "Pixel".into(), peer(), NOW_MS, MONO)
        .expect("pairing succeeds");
    assert_eq!(ok.session_token.len(), 43);
    assert_eq!(ok.expires_at, "2024-01-31T00:00:00.000Z");
    assert_eq!(ok.device_id, derive_device_id(&DeviceFingerprint::from("fp-1")));
    assert_eq!(ok.device_label, "Pixel");
    assert_eq!(ok.paired_at, NOW_MS);
    let token = SessionToken::from_validated(ok.session_token.clone());
    assert!(svc.sessions().validate(&token).is_ok());
}

#[test]
fn pair_endpoint_rejects_wrong_code_with_pair_invalid() {
    let mut svc = PairingService::new();
    let wrong = wrong_code(&svc);
    let err = handle_pair(&mut svc, &wrong, "fp".into(), "x".into(), peer(), NOW_MS, MONO).unwrap_err();
    assert_eq!(err.status, 401);
    assert_eq!(err.code, ErrorCode::PairInvalid);
    assert_eq!(err.retry_after, None);
    assert!(svc.list_sessions().is_empty());
}

#[test]
fn pair_endpoint_rate_limits_after_threshold() {
    let mut svc = PairingService::new();
    let wrong = wrong_code(&svc);
    for i in 0..5u64 {
        let err = handle_pair(&mut svc, &wrong, "fp".into(), "x".into(), peer(), NOW_MS, MONO + i).unwrap_err();
        assert_eq!(err.code, ErrorCode::PairInvalid);
    }
    let code = svc.current_pairing_code().as_str().to_owned();
    let err = handle_pair(&mut svc, &code, "fp".into(), "x".into(), peer(), NOW_MS, MONO + 10).unwrap_err();
    assert_eq!(err.status, 429);
    assert_eq!(err.code, ErrorCode::PairRatelimit);
    assert_eq!(err.retry_after, Some(300));
}
