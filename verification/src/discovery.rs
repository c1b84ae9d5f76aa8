//! mDNS advertisement: what the service announces, and how a change of LAN
//! addresses is handled.

use vstd::prelude::*;
use vstd::string::StringExecFns;
use crate::bridge_events::BridgeEvent;
use crate::lan_filter::{is_rfc1918, spec_is_rfc1918};
use crate::net::{IpAddr, Ipv4Addr};
use crate::text::{decimal, push_decimal};

verus! {

/// The DNS-SD service type of the bridge.
pub const SERVICE_TYPE: &'static str = "_phonemic._tcp.local.";

/// How the service is advertised.
#[derive(Debug, Clone)]
pub struct DiscoveryCfg {
    pub instance_name: String,
    pub port: u16,
    pub https: bool,
}

/// The TXT records: protocol version, whether TLS is on, and the port.
pub open spec fn txt_records_of(port: u16, https: bool) -> Seq<(Seq<char>, Seq<char>)> {
    seq![
        ("v"@, "1"@),
        ("tls"@, if https {
            "1"@
        } else {
            "0"@
        }),
        ("port"@, decimal(port as nat)),
    ]
}

/// The TXT records of the advertisement.
pub fn txt_records(cfg: &DiscoveryCfg) -> (r: Vec<(String, String)>)
    ensures
        r@.len() == 3,
        forall|i: int|
            0 <= i < 3 ==> (#[trigger] r@[i]).0@ == txt_records_of(cfg.port, cfg.https)[i].0
                && r@[i].1@ == txt_records_of(cfg.port, cfg.https)[i].1,
{
    let mut port_text = String::new();
    push_decimal(&mut port_text, cfg.port as u64);
    let tls = if cfg.https {
        String::from_str("1")
    } else {
        String::from_str("0")
    };
    let r = vec![
        (String::from_str("v"), String::from_str("1")),
        (String::from_str("tls"), tls),
        (String::from_str("port"), port_text),
    ];
    r
}

/// The host name advertised: `<instance>.local.`.
pub fn host_name(cfg: &DiscoveryCfg) -> (r: String)
    ensures
        r@ == cfg.instance_name@ + ".local."@,
{
    let mut r = cfg.instance_name.clone();
    r.append(".local.");
    r
}

/// The loopback address, `127.0.0.1`.
pub open spec fn loopback_v4() -> IpAddr {
    IpAddr::V4(Ipv4Addr { a: 127, b: 0, c: 0, d: 1 })
}

/// The host's private IPv4 addresses as seen through the local address the
/// system routes through: that address when it is an RFC1918 one, none
/// otherwise.
pub open spec fn lan_sample_of(local: Option<IpAddr>) -> Seq<IpAddr> {
    match local {
        Some(IpAddr::V4(v4)) => if spec_is_rfc1918(v4) {
            seq![IpAddr::V4(v4)]
        } else {
            Seq::empty()
        },
        _ => Seq::empty(),
    }
}

/// The addresses registered for a LAN sample: the sample itself, or
/// loopback alone when the sample is empty, so that the service is never
/// registered without an address.
pub open spec fn advertised_of(lan: Seq<IpAddr>) -> Seq<IpAddr> {
    if lan.len() > 0 {
        lan
    } else {
        seq![loopback_v4()]
    }
}

/// The private (RFC1918) IPv4 addresses behind the routed local address;
/// possibly none. This is what decides whether a LAN is present.
pub fn lan_sample_from_local_addr(local: Option<IpAddr>) -> (r: Vec<IpAddr>)
    ensures
        r@ == lan_sample_of(local),
{
    let mut out: Vec<IpAddr> = Vec::new();
    match local {
        Some(IpAddr::V4(v4)) => {
            if is_rfc1918(v4) {
                out.push(IpAddr::V4(v4));
            }
        },
        _ => {},
    }
    proof {
        assert(out@ =~= lan_sample_of(local));
    }
    out
}

/// The addresses to register for a LAN sample (see [`advertised_of`]).
pub fn advertised_ips(lan: &Vec<IpAddr>) -> (r: Vec<IpAddr>)
    ensures
        r@ == advertised_of(lan@),
{
    let mut out: Vec<IpAddr> = Vec::new();
    let mut i: usize = 0;
    while i < lan.len()
        invariant
            i <= lan@.len(),
            out@ == lan@.take(i as int),
        decreases lan@.len() - i,
    {
        out.push(lan[i]);
        i = i + 1;
        proof {
            assert(out@ =~= lan@.take(i as int));
        }
    }
    if out.len() == 0 {
        out.push(IpAddr::V4(Ipv4Addr::new(127, 0, 0, 1)));
        proof {
            assert(out@ =~= seq![loopback_v4()]);
        }
    } else {
        proof {
            assert(lan@.take(lan@.len() as int) =~= lan@);
        }
    }
    out
}

/// The addresses to register, from the routed local address: that address
/// when it is a private IPv4 one, loopback otherwise (never nothing).
pub fn lan_ips_from_local_addr(local: Option<IpAddr>) -> (r: Vec<IpAddr>)
    ensures
        r@ == advertised_of(lan_sample_of(local)),
{
    let lan = lan_sample_from_local_addr(local);
    advertised_ips(&lan)
}

/// What the watcher remembers between looks at the interfaces: the last
/// LAN sample and whether it held an address.
#[derive(Debug, Clone)]
pub struct DiscoveryState {
    pub last_lan_present: bool,
    pub last_ips: Vec<IpAddr>,
}

/// The remembered presence flag says whether the remembered list has an
/// address.
pub open spec fn presence_matches(s: DiscoveryState) -> bool {
    s.last_lan_present == (s.last_ips@.len() > 0)
}

/// The state right after registration, from the LAN sample taken then.
pub fn initial_state(ips: Vec<IpAddr>) -> (r: DiscoveryState)
    ensures
        presence_matches(r),
        r.last_lan_present == (ips@.len() > 0),
        r.last_ips@ == ips@,
{
    let present = ips.len() > 0;
    DiscoveryState { last_lan_present: present, last_ips: ips }
}

/// What one look at the interfaces calls for.
#[derive(Debug, Clone, PartialEq, Eq)]
pub enum WatchAction {
    /// The LAN addresses are the same set as before: nothing to do.
    Unchanged,
    /// Re-register with `ips`, and announce `event` if the LAN appeared or
    /// disappeared.
    Reregister { ips: Vec<IpAddr>, event: Option<BridgeEvent> },
}

/// The LAN change an address change announces: lost when there were
/// addresses and now are none, restored in the opposite case.
pub open spec fn lan_event(was_present: bool, now_present: bool) -> Option<BridgeEvent> {
    if was_present && !now_present {
        Some(BridgeEvent::LanLost)
    } else if !was_present && now_present {
        Some(BridgeEvent::LanRestored)
    } else {
        None
    }
}

fn contains_ip(v: &Vec<IpAddr>, ip: &IpAddr) -> (r: bool)
    ensures
        r == v@.contains(*ip),
{
    let mut i: usize = 0;
    while i < v.len()
        invariant
            i <= v@.len(),
            forall|j: int| 0 <= j < i ==> v@[j] != *ip,
        decreases v@.len() - i,
    {
        if v[i] == *ip {
            assert(v@[i as int] == *ip);
            return true;
        }
        i = i + 1;
    }
    false
}

fn subset_of(a: &Vec<IpAddr>, b: &Vec<IpAddr>) -> (r: bool)
    ensures
        r == (forall|x: IpAddr| a@.contains(x) ==> b@.contains(x)),
{
    let mut i: usize = 0;
    while i < a.len()
        invariant
            i <= a@.len(),
            forall|j: int| 0 <= j < i ==> b@.contains(#[trigger] a@[j]),
        decreases a@.len() - i,
    {
        if !contains_ip(b, &a[i]) {
            assert(a@.contains(a@[i as int]));
            return false;
        }
        i = i + 1;
    }
    assert forall|x: IpAddr| a@.contains(x) implies b@.contains(x) by {
        let j = choose|j: int| 0 <= j < a@.len() && a@[j] == x;
        assert(b@.contains(a@[j]));
    }
    true
}

/// One look at the interfaces, given the new LAN sample: when its set of
/// addresses is unchanged nothing happens; otherwise the state takes the new
/// sample and presence, the service is registered anew with the addresses
/// the sample calls for, and a LAN loss or return is announced.
pub fn watch_step(state: &mut DiscoveryState, now: Vec<IpAddr>) -> (r: WatchAction)
    ensures
        presence_matches(*old(state)) ==> presence_matches(*final(state)),
        old(state).last_ips@.to_set() == now@.to_set() ==> (r == WatchAction::Unchanged
            && final(state).last_ips@ == old(state).last_ips@ && final(state).last_lan_present
            == old(state).last_lan_present),
        old(state).last_ips@.to_set() != now@.to_set() ==> (r matches WatchAction::Reregister {
            ips,
            event,
        } && ips@ == advertised_of(now@) && event == lan_event(old(state).last_lan_present, now@.len() > 0)
            && final(state).last_ips@ == now@ && final(state).last_lan_present == (now@.len() > 0)),
{
    let same = subset_of(&now, &state.last_ips) && subset_of(&state.last_ips, &now);
    proof {
        if same {
            assert(old(state).last_ips@.to_set() =~= now@.to_set());
        } else {
            if old(state).last_ips@.to_set() == now@.to_set() {
                assert forall|x: IpAddr| now@.contains(x) implies old(state).last_ips@.contains(x) by {
                    assert(now@.to_set().contains(x));
                }
                assert forall|x: IpAddr| old(state).last_ips@.contains(x) implies now@.contains(x) by {
                    assert(old(state).last_ips@.to_set().contains(x));
                }
            }
        }
    }
    if same {
        return WatchAction::Unchanged;
    }
    let was_present = state.last_lan_present;
    let now_present = now.len() > 0;
    let ips = advertised_ips(&now);
    state.last_ips = now;
    state.last_lan_present = now_present;
    let event = if was_present && !now_present {
        Some(BridgeEvent::LanLost)
    } else if !was_present && now_present {
        Some(BridgeEvent::LanRestored)
    } else {
        None
    };
    WatchAction::Reregister { ips, event }
}


/// Why advertising failed.
#[derive(Debug, Clone, PartialEq, Eq)]
pub enum DiscoveryError {
    /// The mDNS daemon refused; its message.
    Daemon(String),
}

impl DiscoveryError {
    /// `mdns daemon error: <message>`.
    pub fn to_string(&self) -> (r: String)
        ensures
            r@ == match self {
                DiscoveryError::Daemon(m) => "mdns daemon error: "@ + m@,
            },
    {
        match self {
            DiscoveryError::Daemon(m) => {
                let mut s = String::from_str("mdns daemon error: ");
                s.append(m.as_str());
                s
            },
        }
    }
}


/// On every state the watcher reaches (the flag matching the sample), a look
/// at the interfaces announces a LAN loss exactly when the last sample had a
/// private address and the new one has none, a return exactly in the
/// opposite case, and nothing when the set of addresses is unchanged; a
/// re-registration always carries at least one address.
pub proof fn lemma_watch_events(before: DiscoveryState, after: DiscoveryState, now: Seq<IpAddr>, r: WatchAction)
    requires
        presence_matches(before),
        before.last_ips@.to_set() == now.to_set() ==> (r == WatchAction::Unchanged && after.last_ips@
            == before.last_ips@ && after.last_lan_present == before.last_lan_present),
        before.last_ips@.to_set() != now.to_set() ==> (r matches WatchAction::Reregister { ips, event }
            && ips@ == advertised_of(now) && event == lan_event(before.last_lan_present, now.len() > 0)
            && after.last_ips@ == now && after.last_lan_present == (now.len() > 0)),
    ensures
        presence_matches(after),
        (r matches WatchAction::Reregister { event, .. } && event == Some(BridgeEvent::LanLost)) <==> (
        before.last_ips@.len() > 0 && now.len() == 0),
        (r matches WatchAction::Reregister { event, .. } && event == Some(BridgeEvent::LanRestored)) <==> (
        before.last_ips@.len() == 0 && now.len() > 0),
        before.last_ips@.to_set() == now.to_set() ==> r == WatchAction::Unchanged,
        r matches WatchAction::Reregister { ips, .. } ==> ips@.len() > 0,
{
    if before.last_ips@.len() > 0 && now.len() == 0 {
        assert(before.last_ips@.to_set().contains(before.last_ips@[0]));
        assert(!now.to_set().contains(before.last_ips@[0]));
    }
    if before.last_ips@.len() == 0 && now.len() > 0 {
        assert(now.to_set().contains(now[0]));
        assert(!before.last_ips@.to_set().contains(now[0]));
    }
}

} // verus!
