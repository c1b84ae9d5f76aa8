use phonemic::lan_filter::{filter_lan_ipv4, NetworkInterface};
use phonemic::lan_view::{compute_lan_view, NO_LAN_BANNER_FALLBACK};
use phonemic::net::{IpAddr, Ipv4Addr, Ipv6Addr};

const ZH_BANNER: &str = "未检测到局域网连接";
const EN_BANNER: &str = "No LAN connection detected";

fn iface(name: &str, addrs: &[IpAddr]) -> NetworkInterface {
    NetworkInterface { name: name.to_owned(), addrs: addrs.to_vec() }
}

fn v4(a: u8, b: u8, c: u8, d: u8) -> IpAddr {
    IpAddr::V4(Ipv4Addr::new(a, b, c, d))
}

#[test]
fn empty_interfaces_disable_scan_with_zh_cn_banner() {
    let view = compute_lan_view(&[], Some(ZH_BANNER));
    assert!(view.scan_disabled);
    assert!(view.ips.is_empty());
    assert_eq!(view.banner.as_deref(), Some(ZH_BANNER));
    assert!(view.banner.as_deref().unwrap().contains("局域网"));
}

#[test]
fn empty_interfaces_disable_scan_with_en_us_banner() {
    let view = compute_lan_view(&[], Some(EN_BANNER));
    assert!(view.scan_disabled);
    assert!(view.ips.is_empty());
    assert_eq!(view.banner.as_deref(), Some(EN_BANNER));
    assert!(view.banner.as_deref().unwrap().contains("LAN"));
}

#[test]
fn missing_translation_uses_fallback_banner() {
    let view = compute_lan_view(&[], None);
    assert!(view.scan_disabled);
    assert_eq!(view.banner.as_deref(), Some(NO_LAN_BANNER_FALLBACK));
}

#[test]
fn ipv6_only_interfaces_disable_scan_with_banner() {
    let ifaces = vec![iface(
        "eth0",
        &[
            IpAddr::V6(Ipv6Addr::new(0, 0, 0, 0, 0, 0, 0, 1)),
            IpAddr::V6(Ipv6Addr::new(0xfe80, 0, 0, 0, 0, 0, 0, 1)),
            IpAddr::V6(Ipv6Addr::new(0x2001, 0xdb8, 0, 0, 0, 0, 0, 1)),
        ],
    )];
    let view = compute_lan_view(&ifaces, Some(ZH_BANNER));
    assert!(view.scan_disabled);
    assert!(view.ips.is_empty());
    assert_eq!(view.banner.as_deref(), Some(ZH_BANNER));
}

#[test]
fn all_public_ipv4_disable_scan_with_banner() {
    let ifaces = vec![iface("wan0", &[v4(8, 8, 8, 8), v4(1, 1, 1, 1), v4(100, 64, 0, 1)])];
    let view = compute_lan_view(&ifaces, Some(EN_BANNER));
    assert!(view.scan_disabled);
    assert!(view.ips.is_empty());
    assert_eq!(view.banner.as_deref(), Some(EN_BANNER));
}

#[test]
fn loopback_only_disable_scan_with_banner() {
    let ifaces = vec![iface("lo", &[v4(127, 0, 0, 1)])];
    let view = compute_lan_view(&ifaces, Some(ZH_BANNER));
    assert!(view.scan_disabled);
    assert!(view.ips.is_empty());
    assert_eq!(view.banner.as_deref(), Some(ZH_BANNER));
}

#[test]
fn mixed_with_rfc1918_enables_scan_without_banner() {
    let ifaces = vec![
        iface("eth0", &[v4(8, 8, 8, 8), v4(192, 168, 1, 10), v4(127, 0, 0, 1)]),
        iface("wlan0", &[v4(10, 0, 0, 5), v4(169, 254, 1, 1)]),
        iface("eth1", &[v4(172, 16, 0, 2)]),
    ];
    let view = compute_lan_view(&ifaces, Some(EN_BANNER));
    assert!(!view.scan_disabled);
    assert_eq!(view.banner, None);
    assert_eq!(view.ips, filter_lan_ipv4(&ifaces));
    assert_eq!(
        view.ips,
        vec![Ipv4Addr::new(192, 168, 1, 10), Ipv4Addr::new(10, 0, 0, 5), Ipv4Addr::new(172, 16, 0, 2)]
    );
}

#[test]
fn non_empty_lan_has_no_banner_in_any_language() {
    let ifaces = vec![iface("eth0", &[v4(192, 168, 0, 2)])];
    for banner in [Some(ZH_BANNER), Some(EN_BANNER), None] {
        let view = compute_lan_view(&ifaces, banner);
        assert!(!view.scan_disabled);
        assert_eq!(view.banner, None);
        assert_eq!(view.ips, vec![Ipv4Addr::new(192, 168, 0, 2)]);
    }
}

#[test]
fn scan_disabled_matches_banner_presence() {
    let empty = compute_lan_view(&[], Some(ZH_BANNER));
    assert_eq!(empty.scan_disabled, empty.banner.is_some());
    let lan = compute_lan_view(&[iface("eth0", &[v4(192, 168, 0, 2)])], Some(EN_BANNER));
    assert_eq!(lan.scan_disabled, lan.banner.is_some());
}

#[test]
fn compute_lan_view_is_deterministic() {
    let ifaces = vec![
        iface("eth0", &[v4(192, 168, 1, 10), v4(8, 8, 8, 8)]),
        iface("wlan0", &[v4(10, 0, 0, 5)]),
    ];
    for banner in [Some(ZH_BANNER), Some(EN_BANNER)] {
        let a = compute_lan_view(&ifaces, banner);
        let b = compute_lan_view(&ifaces, banner);
        assert_eq!(a, b);
    }
}
