use rand::SeedableRng;

use phonemic::session::{
    derive_device_id, AuthError, DeviceFingerprint, SessionRegistry, SessionToken,
    DEVICE_ID_DIGEST_BYTES, SESSION_TOKEN_STR_LEN,
};

fn ts(secs_after_epoch: u64) -> u64 {
    secs_after_epoch * 1000
}

#[test]
fn issue_then_validate_roundtrip() {
    let mut reg = SessionRegistry::new();
    let fp = DeviceFingerprint::from("device-fp-001");
    let label = "iPhone 15".to_owned();
    let now = ts(1_000);
    let token = reg.issue(fp.clone(), label.clone(), now);
    let session = reg.validate(&token).expect("the token is valid");
    assert_eq!(session.token.as_str(), token.as_str());
    assert_eq!(session.device_label, label);
    assert_eq!(session.paired_at, now);
    assert_eq!(session.last_seen, now);
    assert_eq!(session.device_id.len(), DEVICE_ID_DIGEST_BYTES * 2);
    assert_eq!(session.device_id, derive_device_id(&fp));
    assert!(!session.device_id.contains(&fp.0));
}

#[test]
fn token_is_256bit_base64url() {
    let mut reg = SessionRegistry::new();
    let token = reg.issue("fp".into(), "label".into(), ts(0));
    let s = token.as_str();
    assert_eq!(s.len(), SESSION_TOKEN_STR_LEN);
    assert!(s.bytes().all(|b| b.is_ascii_alphanumeric() || b == b'_' || b == b'-'));
}

#[test]
fn issued_tokens_are_unique() {
    let mut reg = SessionRegistry::new();
    let t1 = reg.issue("fp1".into(), "A".into(), ts(0));
    let t2 = reg.issue("fp2".into(), "B".into(), ts(0));
    assert_ne!(t1.as_str(), t2.as_str());
    assert_eq!(reg.len(), 2);
}

#[test]
fn revoke_makes_validate_return_revoked() {
    let mut reg = SessionRegistry::new();
    let token = reg.issue("fp".into(), "label".into(), ts(0));
    assert!(reg.validate(&token).is_ok());
    reg.revoke(&token);
    assert!(matches!(reg.validate(&token), Err(AuthError::Revoked)));
    assert_eq!(reg.len(), 0);
}

#[test]
fn unknown_token_yields_not_found() {
    let reg = SessionRegistry::new();
    let fake = SessionToken::from_validated("A".repeat(SESSION_TOKEN_STR_LEN));
    assert!(matches!(reg.validate(&fake), Err(AuthError::NotFound)));
}

#[test]
fn revoke_unknown_token_is_noop_and_marks_revoked() {
    let mut reg = SessionRegistry::new();
    let fake = SessionToken::from_validated("B".repeat(SESSION_TOKEN_STR_LEN));
    reg.revoke(&fake);
    assert!(reg.is_empty());
    assert!(matches!(reg.validate(&fake), Err(AuthError::Revoked)));
}

#[test]
fn revoke_device_drops_only_matching_sessions() {
    let mut reg = SessionRegistry::new();
    let fp_a = DeviceFingerprint::from("fp-A");
    let fp_b = DeviceFingerprint::from("fp-B");
    let token_a1 = reg.issue(fp_a.clone(), "A1".into(), ts(0));
    let token_a2 = reg.issue(fp_a.clone(), "A2".into(), ts(1));
    let token_b = reg.issue(fp_b.clone(), "B".into(), ts(2));
    reg.revoke_device(&fp_a);
    assert!(matches!(reg.validate(&token_a1), Err(AuthError::Revoked)));
    assert!(matches!(reg.validate(&token_a2), Err(AuthError::Revoked)));
    assert!(reg.validate(&token_b).is_ok());
    assert_eq!(reg.len(), 1);
    reg.revoke_device(&fp_a);
    assert_eq!(reg.len(), 1);
}

#[test]
fn revoke_single_token_does_not_affect_siblings() {
    let mut reg = SessionRegistry::new();
    let fp = DeviceFingerprint::from("fp-shared");
    let t1 = reg.issue(fp.clone(), "browser-A".into(), ts(0));
    let t2 = reg.issue(fp.clone(), "browser-B".into(), ts(1));
    reg.revoke(&t1);
    assert!(matches!(reg.validate(&t1), Err(AuthError::Revoked)));
    assert!(reg.validate(&t2).is_ok());
    reg.revoke_device(&fp);
    assert!(matches!(reg.validate(&t2), Err(AuthError::Revoked)));
    assert!(reg.is_empty());
}

#[test]
fn touch_updates_last_seen_to_provided_time() {
    let mut reg = SessionRegistry::new();
    let token = reg.issue("fp".into(), "label".into(), ts(100));
    let before = reg.validate(&token).ok().unwrap().last_seen;
    assert_eq!(before, ts(100));
    let later = ts(200);
    reg.touch(&token, later);
    let after = reg.validate(&token).ok().unwrap().last_seen;
    assert_eq!(after, later);
    assert!(after > before);
    let len_before = reg.len();
    let unknown = SessionToken::from_validated("C".repeat(SESSION_TOKEN_STR_LEN));
    reg.touch(&unknown, ts(300));
    assert_eq!(reg.len(), len_before);
    reg.revoke(&token);
    reg.touch(&token, ts(400));
    assert!(matches!(reg.validate(&token), Err(AuthError::Revoked)));
}

#[test]
fn list_sessions_returns_paired_at_sorted() {
    let mut reg = SessionRegistry::new();
    let t1 = reg.issue("fp-A".into(), "A".into(), ts(10));
    let t2 = reg.issue("fp-B".into(), "B".into(), ts(20));
    let t3 = reg.issue("fp-C".into(), "C".into(), ts(30));
    let sessions = reg.list_sessions();
    assert_eq!(sessions.len(), 3);
    let tokens: Vec<&str> = sessions.iter().map(|s| s.token.as_str()).collect();
    assert_eq!(tokens, vec![t1.as_str(), t2.as_str(), t3.as_str()]);
    for pair in sessions.windows(2) {
        assert!(pair[0].paired_at <= pair[1].paired_at);
    }
    reg.revoke(&t2);
    let after = reg.list_sessions();
    assert_eq!(after.len(), 2);
    assert!(after.iter().all(|s| s.token.as_str() != t2.as_str()));
}

#[test]
fn device_id_is_deterministic_and_distinct() {
    let mut reg = SessionRegistry::new();
    let t_a1 = reg.issue("fp-A".into(), "L1".into(), ts(0));
    let t_a2 = reg.issue("fp-A".into(), "L2".into(), ts(1));
    let t_b = reg.issue("fp-B".into(), "L3".into(), ts(2));
    let s_a1 = reg.validate(&t_a1).ok().unwrap();
    let s_a2 = reg.validate(&t_a2).ok().unwrap();
    let s_b = reg.validate(&t_b).ok().unwrap();
    assert_eq!(s_a1.device_id, s_a2.device_id);
    assert_ne!(s_a1.device_id, s_b.device_id);
}

#[test]
fn issue_with_rng_uses_provided_rng() {
    let mut reg = SessionRegistry::new();
    let mut rng_a = rand::rngs::StdRng::seed_from_u64(42);
    let mut rng_b = rand::rngs::StdRng::seed_from_u64(42);
    let token_a = reg.issue_with_rng("fp-1".into(), "A".into(), ts(0), &mut rng_a);
    let mut reg2 = SessionRegistry::new();
    let token_b = reg2.issue_with_rng("fp-2".into(), "B".into(), ts(0), &mut rng_b);
    assert_eq!(token_a.as_str(), token_b.as_str());
}

#[test]
fn device_id_is_first_16_digest_bytes_in_hex() {
    let id = derive_device_id(&DeviceFingerprint::from("hello"));
    assert_eq!(id, "2cf24dba5fb0a30e26e83b2ac5b9e29e");
}

#[test]
fn equal_pairing_times_list_by_device_id() {
    let mut reg = SessionRegistry::new();
    reg.issue("hello".into(), "first".into(), ts(5));
    reg.issue("fp-X".into(), "second".into(), ts(5));
    let listed = reg.list_sessions();
    assert_eq!(listed.len(), 2);
    assert!(listed[0].device_id < listed[1].device_id);
}

#[test]
fn validate_follows_the_history_of_calls() {
    let mut reg = SessionRegistry::new();
    let fp = DeviceFingerprint::from("fp-history");
    let first = reg.issue(fp.clone(), "one".into(), ts(1));
    reg.touch(&first, ts(5));
    assert_eq!(reg.validate(&first).map(|s| s.last_seen), Ok(ts(5)));
    reg.revoke_device(&fp);
    let second = reg.issue(fp.clone(), "two".into(), ts(6));
    assert!(matches!(reg.validate(&first), Err(AuthError::Revoked)));
    assert_eq!(reg.validate(&second).map(|s| s.token.as_str().to_string()), Ok(second.as_str().to_string()));
    let never = SessionToken::from_validated("D".repeat(SESSION_TOKEN_STR_LEN));
    assert!(matches!(reg.validate(&never), Err(AuthError::NotFound)));
    reg.revoke(&never);
    assert!(matches!(reg.validate(&never), Err(AuthError::Revoked)));
    reg.touch(&never, ts(9));
    assert!(matches!(reg.validate(&never), Err(AuthError::Revoked)));
    assert_eq!(reg.len(), 1);
}
