use phonemic::bridge_events::BridgeEvent;
use phonemic::discovery::{
    advertised_ips, host_name, initial_state, lan_ips_from_local_addr, lan_sample_from_local_addr,
    txt_records, watch_step, DiscoveryCfg, WatchAction, SERVICE_TYPE,
};
use phonemic::net::{IpAddr, Ipv4Addr, Ipv6Addr};

fn v4(a: u8, b: u8, c: u8, d: u8) -> IpAddr {
    IpAddr::V4(Ipv4Addr::new(a, b, c, d))
}

#[test]
fn advertisement_records() {
    let cfg = DiscoveryCfg { instance_name: "desk".into(), port: 18443, https: true };
    assert_eq!(SERVICE_TYPE, "_phonemic._tcp.local.");
    assert_eq!(host_name(&cfg), "desk.local.");
    assert_eq!(
        txt_records(&cfg),
        vec![
            ("v".to_string(), "1".to_string()),
            ("tls".to_string(), "1".to_string()),
            ("port".to_string(), "18443".to_string()),
        ]
    );
    let plain = DiscoveryCfg { https: false, ..cfg };
    assert_eq!(txt_records(&plain)[1].1, "0");
}

#[test]
fn current_lan_ips_is_never_empty() {
    assert_eq!(lan_ips_from_local_addr(Some(v4(192, 168, 3, 4))), vec![v4(192, 168, 3, 4)]);
    assert_eq!(lan_ips_from_local_addr(Some(v4(8, 8, 8, 8))), vec![v4(127, 0, 0, 1)]);
    assert_eq!(
        lan_ips_from_local_addr(Some(IpAddr::V6(Ipv6Addr::new(0xfe80, 0, 0, 0, 0, 0, 0, 1)))),
        vec![v4(127, 0, 0, 1)]
    );
    assert_eq!(lan_ips_from_local_addr(None), vec![v4(127, 0, 0, 1)]);
}

#[test]
fn watcher_reports_lan_loss_and_return() {
    let mut st = initial_state(vec![v4(192, 168, 1, 2)]);
    assert!(st.last_lan_present);
    assert_eq!(watch_step(&mut st, vec![v4(192, 168, 1, 2)]), WatchAction::Unchanged);
    assert_eq!(watch_step(&mut st, vec![]), WatchAction::Reregister { ips: vec![v4(127, 0, 0, 1)], event: Some(BridgeEvent::LanLost) });
    assert!(!st.last_lan_present);
    assert_eq!(
        watch_step(&mut st, vec![v4(10, 0, 0, 1)]),
        WatchAction::Reregister { ips: vec![v4(10, 0, 0, 1)], event: Some(BridgeEvent::LanRestored) }
    );
    assert_eq!(
        watch_step(&mut st, vec![v4(10, 0, 0, 2)]),
        WatchAction::Reregister { ips: vec![v4(10, 0, 0, 2)], event: None }
    );
    assert_eq!(st.last_ips, vec![v4(10, 0, 0, 2)]);
    assert_eq!(watch_step(&mut st, vec![v4(10, 0, 0, 2), v4(10, 0, 0, 2)]), WatchAction::Unchanged);
}

#[test]
fn discovery_error_message() {
    let e = phonemic::discovery::DiscoveryError::Daemon("boom".into());
    assert_eq!(e.to_string(), "mdns daemon error: boom");
}

#[test]
fn loss_and_return_are_announced_once_each() {
    let mut st = initial_state(vec![]);
    assert!(!st.last_lan_present);
    assert_eq!(watch_step(&mut st, vec![]), WatchAction::Unchanged);
    assert_eq!(
        watch_step(&mut st, vec![v4(10, 0, 0, 9)]),
        WatchAction::Reregister { ips: vec![v4(10, 0, 0, 9)], event: Some(BridgeEvent::LanRestored) }
    );
    assert_eq!(watch_step(&mut st, vec![]), WatchAction::Reregister { ips: vec![v4(127, 0, 0, 1)], event: Some(BridgeEvent::LanLost) });
    assert_eq!(watch_step(&mut st, vec![]), WatchAction::Unchanged);
}

#[test]
fn lan_sample_holds_only_private_addresses() {
    assert_eq!(lan_sample_from_local_addr(Some(v4(192, 168, 3, 4))), vec![v4(192, 168, 3, 4)]);
    assert_eq!(lan_sample_from_local_addr(Some(v4(8, 8, 8, 8))), vec![]);
    assert_eq!(lan_sample_from_local_addr(None), vec![]);
    assert_eq!(advertised_ips(&vec![]), vec![v4(127, 0, 0, 1)]);
    assert_eq!(advertised_ips(&vec![v4(10, 1, 2, 3)]), vec![v4(10, 1, 2, 3)]);
}

#[test]
fn routed_address_going_public_is_a_lan_loss() {
    let mut st = initial_state(lan_sample_from_local_addr(Some(v4(192, 168, 0, 7))));
    assert!(st.last_lan_present);
    let now = lan_sample_from_local_addr(Some(v4(8, 8, 4, 4)));
    assert_eq!(
        watch_step(&mut st, now),
        WatchAction::Reregister { ips: vec![v4(127, 0, 0, 1)], event: Some(BridgeEvent::LanLost) }
    );
    let back = lan_sample_from_local_addr(Some(v4(192, 168, 0, 7)));
    assert_eq!(
        watch_step(&mut st, back),
        WatchAction::Reregister { ips: vec![v4(192, 168, 0, 7)], event: Some(BridgeEvent::LanRestored) }
    );
}
