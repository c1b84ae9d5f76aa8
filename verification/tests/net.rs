use phonemic::net::{parse_ipv4, Ipv4Addr};

#[test]
fn parse_ipv4_reads_dotted_decimal() {
    assert_eq!(parse_ipv4("192.168.1.10"), Some(Ipv4Addr::new(192, 168, 1, 10)));
    assert_eq!(parse_ipv4("0.0.0.0"), Some(Ipv4Addr::new(0, 0, 0, 0)));
    assert_eq!(parse_ipv4("255.255.255.255"), Some(Ipv4Addr::new(255, 255, 255, 255)));
}

#[test]
fn parse_ipv4_rejects_malformed_text() {
    for bad in ["", "1.2.3", "1.2.3.4.5", "256.1.1.1", "01.2.3.4", "1..3.4", "a.b.c.d", " 1.2.3.4", "1.2.3.4 ", "1000.1.1.1"] {
        assert_eq!(parse_ipv4(bad), None, "{bad}");
    }
}

#[test]
fn text_round_trips_through_the_parser() {
    for ip in [Ipv4Addr::new(8, 8, 4, 4), Ipv4Addr::new(10, 0, 100, 255), Ipv4Addr::new(0, 9, 99, 199)] {
        assert_eq!(parse_ipv4(&ip.to_string()), Some(ip));
    }
}
