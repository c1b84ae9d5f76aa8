//! What the main window shows of the LAN: the addresses to scan, or a banner
//! when there are none.

use vstd::prelude::*;
use vstd::string::StringExecFns;
use crate::lan_filter::{all_addrs, filter_lan_ipv4, first_occurrences, private_v4, NetworkInterface};
use crate::net::Ipv4Addr;

verus! {

/// Banner text used when the dictionary has no entry for the no-LAN banner.
pub const NO_LAN_BANNER_FALLBACK: &'static str = "No LAN detected";

/// The LAN state shown to the user.
#[derive(Debug, Clone, PartialEq, Eq)]
pub struct LanView {
    pub scan_disabled: bool,
    pub ips: Vec<Ipv4Addr>,
    pub banner: Option<String>,
}

/// The LAN state for the interfaces: the private IPv4 addresses when there is
/// one; otherwise scanning is off and the banner reads `no_lan_banner`, the
/// translation the interface language has for it (the fallback text when
/// there is none).
pub fn compute_lan_view(ifaces: &[NetworkInterface], no_lan_banner: Option<&str>) -> (r: LanView)
    ensures
        r.scan_disabled == (first_occurrences(private_v4(all_addrs(ifaces@))).len() == 0),
        r.scan_disabled == r.banner is Some,
        r.ips@ == first_occurrences(private_v4(all_addrs(ifaces@))),
        r.banner matches Some(b) ==> b@ == (match no_lan_banner {
            Some(t) => t@,
            None => NO_LAN_BANNER_FALLBACK@,
        }),
{
    let ips = filter_lan_ipv4(ifaces);
    if ips.len() == 0 {
        let text = match no_lan_banner {
            Some(t) => t,
            None => NO_LAN_BANNER_FALLBACK,
        };
        LanView { scan_disabled: true, ips: Vec::new(), banner: Some(String::from_str(text)) }
    } else {
        LanView { scan_disabled: false, ips, banner: None }
    }
}

} // verus!
