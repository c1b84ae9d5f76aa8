use phonemic::net::{IpAddr, Ipv4Addr};
use phonemic::pair_rate_limit::{FAILURE_THRESHOLD, FAILURE_WINDOW_NANOS};
use phonemic::pairing_code::{PairingCode, PAIRING_CODE_ALPHABET, PAIRING_CODE_LEN};
use phonemic::pairing_service::{PairError, PairingService};
use phonemic::session::DeviceFingerprint;

const SAMPLE_WRONG_CODE: &str = "ABCDJKMN";
const NOW_MS: u64 = 1_700_000_000_000;
const MONO: u64 = 5_000_000_000_000;

fn loopback(d: u8) -> IpAddr {
    IpAddr::V4(Ipv4Addr::new(127, 0, 0, d))
}

fn pick_wrong_candidate(current: &PairingCode) -> String {
    if current.as_str() != SAMPLE_WRONG_CODE {
        return SAMPLE_WRONG_CODE.to_owned();
    }
    let bytes = current.as_str().as_bytes();
    let first = bytes[0];
    let next = PAIRING_CODE_ALPHABET.iter().copied().find(|b| *b != first).unwrap();
    let mut buf = bytes.to_vec();
    buf[0] = next;
    String::from_utf8(buf).unwrap()
}

#[test]
fn on_startup_replaces_current_code() {
    let mut svc = PairingService::new();
    let before = svc.current_pairing_code().as_str().to_owned();
    assert_eq!(before.len(), PAIRING_CODE_LEN);
    svc.on_startup();
    let after = svc.current_pairing_code().as_str().to_owned();
    assert_eq!(after.len(), PAIRING_CODE_LEN);
    assert_ne!(before, after);
}

#[test]
fn on_startup_invalidates_previous_code() {
    let mut svc = PairingService::new();
    let old = svc.current_pairing_code().as_str().to_owned();
    svc.on_startup();
    let result = svc.submit_pair(&old, "fp".into(), "label".into(), loopback(2), NOW_MS, MONO);
    assert!(matches!(result, Err(PairError::Invalid)));
}

#[test]
fn rotate_code_changes_current_code() {
    let mut svc = PairingService::new();
    let before = svc.current_pairing_code().as_str().to_owned();
    let after = svc.rotate_code().as_str().to_owned();
    assert_ne!(before, after);
}

#[test]
fn submit_pair_with_valid_code_issues_token() {
    let mut svc = PairingService::new();
    let candidate = svc.current_pairing_code().as_str().to_owned();
    let token = svc
        .submit_pair(&candidate, "fp-A".into(), "iPhone".into(), loopback(3), NOW_MS, MONO)
        .ok()
        .expect("the right code pairs");
    let session = svc.sessions().validate(&token).ok().expect("the token is known");
    assert_eq!(session.device_id.len(), 32);
    assert_eq!(session.device_label, "iPhone");
}

#[test]
fn rate_limit_kicks_in_after_threshold_failures() {
    let mut svc = PairingService::new();
    let peer = loopback(4);
    let wrong = pick_wrong_candidate(svc.current_pairing_code());
    for _ in 0..FAILURE_THRESHOLD {
        let r = svc.submit_pair(&wrong, "fp".into(), "label".into(), peer, NOW_MS, MONO);
        assert!(matches!(r, Err(PairError::Invalid)));
    }
    let r = svc.submit_pair(&wrong, "fp".into(), "label".into(), peer, NOW_MS, MONO);
    assert!(matches!(r, Err(PairError::RateLimited)));
}

#[test]
fn rate_limit_blocks_even_valid_code() {
    let mut svc = PairingService::new();
    let peer = loopback(5);
    let wrong = pick_wrong_candidate(svc.current_pairing_code());
    let valid = svc.current_pairing_code().as_str().to_owned();
    for _ in 0..FAILURE_THRESHOLD {
        let _ = svc.submit_pair(&wrong, "fp".into(), "label".into(), peer, NOW_MS, MONO);
    }
    let r = svc.submit_pair(&valid, "fp".into(), "label".into(), peer, NOW_MS, MONO);
    assert!(matches!(r, Err(PairError::RateLimited)));
}

#[test]
fn rate_limit_is_scoped_per_ip() {
    let mut svc = PairingService::new();
    let alice = loopback(10);
    let bob = loopback(11);
    let wrong = pick_wrong_candidate(svc.current_pairing_code());
    for _ in 0..FAILURE_THRESHOLD {
        let _ = svc.submit_pair(&wrong, "fp-A".into(), "A".into(), alice, NOW_MS, MONO);
    }
    let valid = svc.current_pairing_code().as_str().to_owned();
    let token = svc
        .submit_pair(&valid, "fp-B".into(), "B".into(), bob, NOW_MS, MONO)
        .ok()
        .expect("bob is not limited");
    assert!(svc.sessions().validate(&token).is_ok());
}

#[test]
fn successful_pair_resets_failure_count() {
    let mut svc = PairingService::new();
    let peer = loopback(12);
    let wrong = pick_wrong_candidate(svc.current_pairing_code());
    for _ in 0..(FAILURE_THRESHOLD - 1) {
        let _ = svc.submit_pair(&wrong, "fp".into(), "label".into(), peer, NOW_MS, MONO);
    }
    let valid = svc.current_pairing_code().as_str().to_owned();
    assert!(svc.submit_pair(&valid, "fp".into(), "label".into(), peer, NOW_MS, MONO).is_ok());
    for _ in 0..FAILURE_THRESHOLD {
        let r = svc.submit_pair(&wrong, "fp".into(), "label".into(), peer, NOW_MS, MONO);
        assert!(matches!(r, Err(PairError::Invalid)));
    }
    let r = svc.submit_pair(&wrong, "fp".into(), "label".into(), peer, NOW_MS, MONO);
    assert!(matches!(r, Err(PairError::RateLimited)));
}

#[test]
fn revoke_propagates_to_registry() {
    let mut svc = PairingService::new();
    let valid = svc.current_pairing_code().as_str().to_owned();
    let token = svc
        .submit_pair(&valid, "fp-revoke".into(), "device".into(), loopback(20), NOW_MS, MONO)
        .ok()
        .unwrap();
    assert!(svc.sessions().validate(&token).is_ok());
    svc.revoke(&token);
    assert!(svc.sessions().validate(&token).is_err());
}

#[test]
fn revoke_device_drops_all_tokens_for_fp() {
    let mut svc = PairingService::new();
    let fp_a: DeviceFingerprint = "fp-A".into();
    let fp_b: DeviceFingerprint = "fp-B".into();
    let valid = svc.current_pairing_code().as_str().to_owned();
    let token_a1 = svc.submit_pair(&valid, fp_a.clone(), "A1".into(), loopback(30), NOW_MS, MONO).ok().unwrap();
    let token_a2 = svc.submit_pair(&valid, fp_a.clone(), "A2".into(), loopback(31), NOW_MS, MONO).ok().unwrap();
    let token_b = svc.submit_pair(&valid, fp_b.clone(), "B".into(), loopback(32), NOW_MS, MONO).ok().unwrap();
    svc.revoke_device(&fp_a);
    assert!(svc.sessions().validate(&token_a1).is_err());
    assert!(svc.sessions().validate(&token_a2).is_err());
    assert!(svc.sessions().validate(&token_b).is_ok());
}

#[test]
fn list_sessions_returns_all_active() {
    let mut svc = PairingService::new();
    assert!(svc.list_sessions().is_empty());
    let valid = svc.current_pairing_code().as_str().to_owned();
    assert!(svc.submit_pair(&valid, "fp".into(), "label".into(), loopback(40), NOW_MS, MONO).is_ok());
    assert_eq!(svc.list_sessions().len(), 1);
}

#[test]
fn pairing_service_default_matches_new() {
    let a = PairingService::default();
    let b = PairingService::new();
    assert_eq!(a.current_pairing_code().as_str().len(), PAIRING_CODE_LEN);
    assert_eq!(b.current_pairing_code().as_str().len(), PAIRING_CODE_LEN);
}

#[test]
fn rate_limit_lifts_after_window_passes() {
    let mut svc = PairingService::new();
    let peer = loopback(50);
    let wrong = pick_wrong_candidate(svc.current_pairing_code());
    for _ in 0..FAILURE_THRESHOLD {
        let _ = svc.submit_pair(&wrong, "fp".into(), "label".into(), peer, NOW_MS, MONO);
    }
    let blocked = svc.submit_pair(&wrong, "fp".into(), "label".into(), peer, NOW_MS, MONO);
    assert!(matches!(blocked, Err(PairError::RateLimited)));
    let later = MONO + FAILURE_WINDOW_NANOS + 1_000_000_000;
    let err = svc.submit_pair(&wrong, "fp".into(), "label".into(), peer, NOW_MS, later);
    assert!(matches!(err, Err(PairError::Invalid)));
}

#[test]
fn clear_sessions_drops_every_session() {
    let mut svc = PairingService::new();
    let valid = svc.current_pairing_code().as_str().to_owned();
    let token = svc.submit_pair(&valid, "fp".into(), "x".into(), loopback(60), NOW_MS, MONO).ok().unwrap();
    svc.clear_sessions();
    assert!(svc.list_sessions().is_empty());
    assert!(svc.sessions().validate(&token).is_err());
}
