use phonemic::net::Ipv4Addr;
use phonemic::url_render::{render_connection_urls, Scheme};

#[test]
fn scheme_as_str_returns_lowercase_protocol() {
    assert_eq!(Scheme::Http.as_str(), "http");
    assert_eq!(Scheme::Https.as_str(), "https");
}

#[test]
fn scheme_display_matches_as_str() {
    assert_eq!(Scheme::Http.to_string(), "http");
    assert_eq!(Scheme::Https.to_string(), "https");
}

#[test]
fn render_empty_input_yields_empty_output() {
    let out = render_connection_urls(Scheme::Http, &[], 18080);
    assert!(out.is_empty());
}

#[test]
fn render_single_ip_http() {
    let ips = [Ipv4Addr::new(192, 168, 1, 10)];
    let out = render_connection_urls(Scheme::Http, &ips, 18080);
    assert_eq!(out, vec!["http://192.168.1.10:18080".to_string()]);
}

#[test]
fn render_single_ip_https() {
    let ips = [Ipv4Addr::new(10, 0, 0, 5)];
    let out = render_connection_urls(Scheme::Https, &ips, 8443);
    assert_eq!(out, vec!["https://10.0.0.5:8443".to_string()]);
}

#[test]
fn render_multiple_ips_preserves_input_order() {
    let ips = [
        Ipv4Addr::new(192, 168, 1, 2),
        Ipv4Addr::new(10, 0, 0, 3),
        Ipv4Addr::new(172, 16, 0, 4),
    ];
    let out = render_connection_urls(Scheme::Http, &ips, 18080);
    assert_eq!(
        out,
        vec![
            "http://192.168.1.2:18080".to_string(),
            "http://10.0.0.3:18080".to_string(),
            "http://172.16.0.4:18080".to_string(),
        ]
    );
    for (rendered, ip) in out.iter().zip(ips.iter()) {
        assert!(rendered.contains(&ip.to_string()));
        assert!(rendered.contains("18080"));
    }
}

#[test]
fn render_zero_ipv4_address() {
    let ips = [Ipv4Addr::new(0, 0, 0, 0)];
    let out = render_connection_urls(Scheme::Http, &ips, 1024);
    assert_eq!(out, vec!["http://0.0.0.0:1024".to_string()]);
}

#[test]
fn render_max_port_65535() {
    let ips = [Ipv4Addr::new(192, 168, 0, 1)];
    let out = render_connection_urls(Scheme::Https, &ips, u16::MAX);
    assert_eq!(out, vec!["https://192.168.0.1:65535".to_string()]);
}

#[test]
fn render_min_port_zero_still_renders() {
    let ips = [Ipv4Addr::new(127, 0, 0, 1)];
    let out = render_connection_urls(Scheme::Http, &ips, 0);
    assert_eq!(out, vec!["http://127.0.0.1:0".to_string()]);
}

#[test]
fn render_output_length_matches_input_length() {
    let ips = [
        Ipv4Addr::new(192, 168, 1, 1),
        Ipv4Addr::new(192, 168, 1, 2),
        Ipv4Addr::new(192, 168, 1, 3),
        Ipv4Addr::new(192, 168, 1, 4),
    ];
    let out = render_connection_urls(Scheme::Http, &ips, 18080);
    assert_eq!(out.len(), ips.len());
}

#[test]
fn ipv4_text_has_no_leading_zeros() {
    assert_eq!(Ipv4Addr::new(255, 10, 0, 7).to_string(), "255.10.0.7");
}
