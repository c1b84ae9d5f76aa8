use phonemic::redirect::{redirect_location, redirect_response_text, redirect_text_for, REDIRECT_STATUS};

#[test]
fn redirect_response_text_is_pure_header() {
    let s = redirect_response_text("/api/pair?pairingCode=SECRET01", "h:1");
    assert!(s.starts_with("HTTP/1.1 308"));
    assert!(s.contains("location: https://h:1/api/pair\r\n"));
    assert!(s.contains("content-length: 0"));
    assert!(s.ends_with("\r\n\r\n"));
    assert!(!s.contains("SECRET01"));
}

#[test]
fn redirect_strips_query() {
    assert_eq!(REDIRECT_STATUS, 308);
    let s = redirect_response_text("/api/pair?pairingCode=ABCD2345&fingerprint=fp", "192.168.1.10:18443");
    assert!(s.starts_with("HTTP/1.1 308 Permanent Redirect\r\n"));
    let location = redirect_location("/api/pair?pairingCode=ABCD2345&fingerprint=fp", "192.168.1.10:18443");
    assert_eq!(location, "https://192.168.1.10:18443/api/pair");
    assert!(!location.contains("pairingCode"));
    assert!(s.contains("location: https://192.168.1.10:18443/api/pair\r\n"));
    assert!(!s.contains("pairingCode"));
}

#[test]
fn redirect_text_for_exact_head() {
    assert_eq!(
        redirect_text_for(Some("/ws".to_string()), "10.0.0.2:18443"),
        "HTTP/1.1 308 Permanent Redirect\r\nlocation: https://10.0.0.2:18443/ws\r\ncache-control: no-store\r\ncontent-length: 0\r\n\r\n"
    );
    assert_eq!(
        redirect_text_for(None, "h"),
        "HTTP/1.1 308 Permanent Redirect\r\nlocation: https://h\r\ncache-control: no-store\r\ncontent-length: 0\r\n\r\n"
    );
}

#[test]
fn unparsable_target_redirects_to_the_bare_host() {
    let s = redirect_response_text("not a uri", "h:1");
    assert!(s.contains("location: https://h:1\r\n"));
}

#[test]
fn redirect_location_drops_the_query() {
    assert_eq!(phonemic::redirect::redirect_location("/ws?token=abc", "h:9"), "https://h:9/ws");
    assert_eq!(phonemic::redirect::redirect_location("/", "h"), "https://h/");
}
