use phonemic::qr::{build_pair_url, parse_pair_url, qr_encode, qr_result, QrError};

#[test]
fn build_and_parse_pair_url_round_trip() {
    let url = "https://192.168.1.10:18080";
    let code = "ABCD2345";
    let s = build_pair_url(url, code);
    let (parsed_url, parsed_code) = parse_pair_url(&s).expect("parse");
    assert_eq!(parsed_url, url);
    assert_eq!(parsed_code, code);
}

#[test]
fn pair_url_encodes_the_connection_url_in_base64url() {
    let s = build_pair_url("http://10.0.0.2:1", "ABCD2345");
    assert_eq!(s, "phonemic://pair?u=aHR0cDovLzEwLjAuMC4yOjE&c=ABCD2345");
    assert_ne!(s, "http://10.0.0.2:1");
}

#[test]
fn parse_rejects_unknown_scheme() {
    assert!(parse_pair_url("https://x?u=AA&c=B").is_none());
}

#[test]
fn parse_rejects_missing_parts() {
    assert!(parse_pair_url("phonemic://pair?c=ABCD2345").is_none());
    assert!(parse_pair_url("phonemic://pair?u=aHR0cDovLzEwLjAuMC4yOjE").is_none());
    assert!(parse_pair_url("phonemic://pair?u=!!!&c=X").is_none());
}

#[test]
fn qr_encode_returns_svg_string() {
    let svg = qr_encode("http://192.168.1.10:18080", "ABCD2345").expect("encode");
    assert!(svg.contains("<svg"));
    assert!(svg.contains("</svg>"));
}

#[test]
fn qr_result_maps_encoder_failures() {
    assert_eq!(qr_result(Ok("<svg/>".to_string())), Ok("<svg/>".to_string()));
    let e = qr_result(Err("data too long".to_string())).unwrap_err();
    assert_eq!(e, QrError::Encode("data too long".to_string()));
    assert_eq!(e.to_string(), "qr encode failed: data too long");
}

#[test]
fn pair_url_uses_the_url_safe_alphabet() {
    assert_eq!(build_pair_url("~~~", "C"), "phonemic://pair?u=fn5-&c=C");
    assert_eq!(build_pair_url("???", "C"), "phonemic://pair?u=Pz8_&c=C");
    assert_eq!(build_pair_url("ab", "C"), "phonemic://pair?u=YWI&c=C");
}
