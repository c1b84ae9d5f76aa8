use phonemic::middleware::{
    effective_peer_ip, extract_bearer_token, extract_ws_protocol_token, forwarded_for_first,
    is_authorized, is_lan_or_loopback,
};
use phonemic::session::SessionRegistry;
use phonemic::net::{IpAddr, Ipv4Addr, Ipv6Addr};

fn parse_v4(s: &str) -> Option<IpAddr> {
    let parts: Vec<u8> = s.split('.').map(|p| p.parse::<u8>().ok()).collect::<Option<Vec<u8>>>()?;
    if parts.len() != 4 {
        return None;
    }
    Some(IpAddr::V4(Ipv4Addr::new(parts[0], parts[1], parts[2], parts[3])))
}

#[test]
fn effective_peer_ip_prefers_xff_first_segment() {
    let direct = IpAddr::V4(Ipv4Addr::new(127, 0, 0, 1));
    let first = forwarded_for_first("203.0.113.10, 192.168.1.1");
    assert_eq!(first, "203.0.113.10");
    assert_eq!(effective_peer_ip(direct, parse_v4(&first)), IpAddr::V4(Ipv4Addr::new(203, 0, 113, 10)));
}

#[test]
fn effective_peer_ip_falls_back_to_direct() {
    let direct = IpAddr::V4(Ipv4Addr::new(192, 168, 1, 5));
    assert_eq!(effective_peer_ip(direct, None), direct);
}

#[test]
fn forwarded_for_first_trims_the_first_segment() {
    assert_eq!(forwarded_for_first("  10.0.0.7  "), "10.0.0.7");
    assert_eq!(forwarded_for_first(""), "");
    assert_eq!(forwarded_for_first(",1.2.3.4"), "");
}

#[test]
fn is_lan_or_loopback_accepts_rfc1918_and_loopback() {
    assert!(is_lan_or_loopback(IpAddr::V4(Ipv4Addr::new(192, 168, 1, 5))));
    assert!(is_lan_or_loopback(IpAddr::V4(Ipv4Addr::new(10, 0, 0, 1))));
    assert!(is_lan_or_loopback(IpAddr::V4(Ipv4Addr::new(127, 0, 0, 1))));
    assert!(!is_lan_or_loopback(IpAddr::V4(Ipv4Addr::new(8, 8, 8, 8))));
    assert!(!is_lan_or_loopback(IpAddr::V4(Ipv4Addr::new(100, 64, 0, 1))));
}

#[test]
fn is_lan_or_loopback_accepts_ipv6_loopback_only() {
    assert!(is_lan_or_loopback(IpAddr::V6(Ipv6Addr::new(0, 0, 0, 0, 0, 0, 0, 1))));
    assert!(!is_lan_or_loopback(IpAddr::V6(Ipv6Addr::new(0xfe80, 0, 0, 0, 0, 0, 0, 1))));
}

#[test]
fn extract_bearer_token_strips_prefix() {
    assert_eq!(extract_bearer_token(Some("Bearer abc123")).as_deref(), Some("abc123"));
    assert_eq!(extract_bearer_token(Some("Basic xyz")), None);
    assert_eq!(extract_bearer_token(None), None);
}

#[test]
fn extract_ws_protocol_token_finds_phonemic_prefix() {
    assert_eq!(extract_ws_protocol_token(Some("phonemic.tok123")).as_deref(), Some("tok123"));
    assert_eq!(extract_ws_protocol_token(Some("json, phonemic.xyz")).as_deref(), Some("xyz"));
    assert_eq!(extract_ws_protocol_token(Some("json, foo")), None);
    assert_eq!(extract_ws_protocol_token(None), None);
}

#[test]
fn issued_token_authorizes_as_bearer() {
    let mut reg = SessionRegistry::new();
    let token = reg.issue("fp".into(), "phone".into(), 5);
    assert_eq!(token.as_str().len(), 43);
    let header = format!("Bearer {}", token.as_str());
    assert!(is_authorized(&reg, Some(&header)));
    assert!(!is_authorized(&reg, Some(token.as_str())));
    assert!(!is_authorized(&reg, None));
    reg.revoke(&token);
    assert!(!is_authorized(&reg, Some(&header)));
}
