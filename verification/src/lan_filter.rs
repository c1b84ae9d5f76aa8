//! Which of the host's addresses a phone on the same LAN can reach.

use vstd::prelude::*;
use crate::net::{IpAddr, Ipv4Addr};

verus! {

/// A network interface: its name and its addresses, in the order the
/// system lists them.
#[derive(Debug, Clone, PartialEq, Eq)]
pub struct NetworkInterface {
    pub name: String,
    pub addrs: Vec<IpAddr>,
}

/// `10.0.0.0/8`, `172.16.0.0/12` or `192.168.0.0/16`.
pub open spec fn spec_is_rfc1918(ip: Ipv4Addr) -> bool {
    ||| ip.a == 10
    ||| ip.a == 172 && 16 <= ip.b <= 31
    ||| ip.a == 192 && ip.b == 168
}

/// Every address of every interface, interface by interface.
pub open spec fn all_addrs(ifaces: Seq<NetworkInterface>) -> Seq<IpAddr>
    decreases ifaces.len(),
{
    if ifaces.len() == 0 {
        Seq::empty()
    } else {
        all_addrs(ifaces.drop_last()) + ifaces.last().addrs@
    }
}

/// The private IPv4 addresses among `addrs`, in order, repeats included.
pub open spec fn private_v4(addrs: Seq<IpAddr>) -> Seq<Ipv4Addr>
    decreases addrs.len(),
{
    if addrs.len() == 0 {
        Seq::empty()
    } else {
        let init = private_v4(addrs.drop_last());
        match addrs.last() {
            IpAddr::V4(v) => if spec_is_rfc1918(v) {
                init.push(v)
            } else {
                init
            },
            IpAddr::V6(_) => init,
        }
    }
}

/// `s` with every repeat after the first occurrence removed.
pub open spec fn first_occurrences(s: Seq<Ipv4Addr>) -> Seq<Ipv4Addr>
    decreases s.len(),
{
    if s.len() == 0 {
        Seq::empty()
    } else {
        let init = first_occurrences(s.drop_last());
        if init.contains(s.last()) {
            init
        } else {
            init.push(s.last())
        }
    }
}

/// Whether `ip` lies in one of the three private IPv4 ranges.
pub fn is_rfc1918(ip: Ipv4Addr) -> (r: bool)
    ensures
        r == spec_is_rfc1918(ip),
{
    let o = ip.octets();
    let a = o[0];
    let b = o[1];
    if a == 10 {
        return true;
    }
    if a == 172 && 16 <= b && b <= 31 {
        return true;
    }
    if a == 192 && b == 168 {
        return true;
    }
    false
}

fn contains_ip(v: &Vec<Ipv4Addr>, ip: &Ipv4Addr) -> (r: bool)
    ensures
        r == v@.contains(*ip),
{
    let mut i: usize = 0;
    while i < v.len()
        invariant
            i <= v@.len(),
            forall|j: int| 0 <= j < i ==> v@[j] != *ip,
        decreases v@.len() - i,
    {
        if v[i] == *ip {
            assert(v@[i as int] == *ip);
            return true;
        }
        i = i + 1;
    }
    false
}

/// The private IPv4 addresses of all interfaces, in interface order and then
/// address order, each kept only where it first occurs.
pub fn filter_lan_ipv4(ifaces: &[NetworkInterface]) -> (r: Vec<Ipv4Addr>)
    ensures
        r@ == first_occurrences(private_v4(all_addrs(ifaces@))),
{
    let mut out: Vec<Ipv4Addr> = Vec::new();
    let mut i: usize = 0;
    proof {
        assert(ifaces@.subrange(0, 0) =~= Seq::<NetworkInterface>::empty());
    }
    while i < ifaces.len()
        invariant
            i <= ifaces@.len(),
            out@ == first_occurrences(private_v4(all_addrs(ifaces@.subrange(0, i as int)))),
        decreases ifaces@.len() - i,
    {
        let iface = &ifaces[i];
        let ghost prefix = all_addrs(ifaces@.subrange(0, i as int));
        let mut j: usize = 0;
        proof {
            assert(prefix + iface.addrs@.subrange(0, 0) =~= prefix);
        }
        while j < iface.addrs.len()
            invariant
                j <= iface.addrs@.len(),
                out@ == first_occurrences(private_v4(prefix + iface.addrs@.subrange(0, j as int))),
            decreases iface.addrs@.len() - j,
        {
            let ghost before = prefix + iface.addrs@.subrange(0, j as int);
            let ghost after = prefix + iface.addrs@.subrange(0, j + 1);
            proof {
                assert(after.drop_last() =~= before);
                assert(after.last() == iface.addrs@[j as int]);
            }
            match &iface.addrs[j] {
                IpAddr::V4(v4) => {
                    if is_rfc1918(*v4) {
                        proof {
                            let c = private_v4(after);
                            assert(c == private_v4(before).push(*v4));
                            assert(c.drop_last() =~= private_v4(before));
                            assert(c.last() == *v4);
                        }
                        if !contains_ip(&out, v4) {
                            out.push(*v4);
                        }
                    } else {
                        assert(private_v4(after) == private_v4(before));
                    }
                },
                IpAddr::V6(_) => {
                    assert(private_v4(after) == private_v4(before));
                },
            }
            j = j + 1;
        }
        proof {
            let next = ifaces@.subrange(0, i + 1);
            assert(next.drop_last() =~= ifaces@.subrange(0, i as int));
            assert(next.last() == ifaces@[i as int]);
            assert(iface.addrs@.subrange(0, iface.addrs@.len() as int) =~= iface.addrs@);
        }
        i = i + 1;
    }
    proof {
        assert(ifaces@.subrange(0, ifaces@.len() as int) =~= ifaces@);
    }
    out
}

proof fn lemma_first_occurrences(s: Seq<Ipv4Addr>)
    ensures
        forall|i: int, j: int|
            #![trigger first_occurrences(s)[i], first_occurrences(s)[j]]
            0 <= i < j < first_occurrences(s).len() ==> first_occurrences(s)[i] != first_occurrences(s)[j],
        forall|x: Ipv4Addr| first_occurrences(s).contains(x) <==> s.contains(x),
    decreases s.len(),
{
    if s.len() > 0 {
        lemma_first_occurrences(s.drop_last());
        let init = first_occurrences(s.drop_last());
        assert forall|x: Ipv4Addr| first_occurrences(s).contains(x) <==> s.contains(x) by {
            if s.contains(x) && x != s.last() {
                let k = choose|k: int| 0 <= k < s.len() && s[k] == x;
                assert(s.drop_last()[k] == x);
            }
            if s.drop_last().contains(x) {
                let k = choose|k: int| 0 <= k < s.drop_last().len() && s.drop_last()[k] == x;
                assert(s[k] == x);
            }
            if x == s.last() {
                assert(s[s.len() - 1] == x);
                if !init.contains(x) {
                    assert(init.push(x)[init.len() as int] == x);
                }
            }
            if init.contains(x) && !init.contains(s.last()) {
                let k = choose|k: int| 0 <= k < init.len() && init[k] == x;
                assert(init.push(s.last())[k] == x);
            }
        }
    }
}

proof fn lemma_private_v4(addrs: Seq<IpAddr>)
    ensures
        forall|i: int| 0 <= i < private_v4(addrs).len() ==> spec_is_rfc1918(
            #[trigger] private_v4(addrs)[i],
        ),
        forall|x: Ipv4Addr| #[trigger] private_v4(addrs).contains(x) <==> (spec_is_rfc1918(x)
            && addrs.contains(IpAddr::V4(x))),
    decreases addrs.len(),
{
    if addrs.len() > 0 {
        lemma_private_v4(addrs.drop_last());
        let init = private_v4(addrs.drop_last());
        assert forall|x: Ipv4Addr| #[trigger] private_v4(addrs).contains(x) <==> (spec_is_rfc1918(x)
            && addrs.contains(IpAddr::V4(x))) by {
            if addrs.contains(IpAddr::V4(x)) {
                let k = choose|k: int| 0 <= k < addrs.len() && addrs[k] == IpAddr::V4(x);
                if k < addrs.len() - 1 {
                    assert(addrs.drop_last()[k] == IpAddr::V4(x));
                }
            }
            if addrs.drop_last().contains(IpAddr::V4(x)) {
                let k = choose|k: int| 0 <= k < addrs.drop_last().len() && addrs.drop_last()[k] == IpAddr::V4(x);
                assert(addrs[k] == IpAddr::V4(x));
            }
            if addrs.last() == IpAddr::V4(x) {
                assert(addrs[addrs.len() - 1] == IpAddr::V4(x));
            }
            if init.contains(x) {
                let k = choose|k: int| 0 <= k < init.len() && init[k] == x;
                match addrs.last() {
                    IpAddr::V4(v) => if spec_is_rfc1918(v) {
                        assert(init.push(v)[k] == x);
                    },
                    IpAddr::V6(_) => {},
                }
            }
            match addrs.last() {
                IpAddr::V4(v) => if spec_is_rfc1918(v) && v == x {
                    assert(init.push(v)[init.len() as int] == x);
                },
                IpAddr::V6(_) => {},
            }
        }
    }
}

/// What `filter_lan_ipv4` returns holds only private IPv4 addresses, none
/// twice, and every private IPv4 address of the interfaces.
pub proof fn lemma_filter_lan_ipv4(ifaces: Seq<NetworkInterface>)
    ensures
        forall|i: int| 0 <= i < first_occurrences(private_v4(all_addrs(ifaces))).len()
            ==> spec_is_rfc1918(#[trigger] first_occurrences(private_v4(all_addrs(ifaces)))[i]),
        forall|i: int, j: int|
            #![trigger first_occurrences(private_v4(all_addrs(ifaces)))[i], first_occurrences(private_v4(all_addrs(ifaces)))[j]]
            0 <= i < j < first_occurrences(private_v4(all_addrs(ifaces))).len()
                ==> first_occurrences(private_v4(all_addrs(ifaces)))[i] != first_occurrences(private_v4(all_addrs(ifaces)))[j],
        forall|x: Ipv4Addr| #[trigger] first_occurrences(private_v4(all_addrs(ifaces))).contains(x)
            <==> (spec_is_rfc1918(x) && all_addrs(ifaces).contains(IpAddr::V4(x))),
{
    let c = private_v4(all_addrs(ifaces));
    lemma_private_v4(all_addrs(ifaces));
    lemma_first_occurrences(c);
    let r = first_occurrences(c);
    assert forall|i: int| 0 <= i < r.len() implies spec_is_rfc1918(#[trigger] r[i]) by {
        assert(r.contains(r[i]));
        assert(c.contains(r[i]));
    }
    assert forall|x: Ipv4Addr| #[trigger] r.contains(x) <==> (spec_is_rfc1918(x)
        && all_addrs(ifaces).contains(IpAddr::V4(x))) by {
        assert(r.contains(x) <==> c.contains(x));
    }
}

} // verus!
