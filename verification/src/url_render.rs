//! Connection URLs shown to the user: one per LAN address.

use vstd::prelude::*;
use vstd::string::StringExecFns;
use crate::net::{ipv4_text, push_ipv4, Ipv4Addr};
use crate::text::{decimal, push_char, push_decimal};

verus! {

/// The protocol a connection URL names.
#[derive(Debug, Clone, Copy, PartialEq, Eq, Structural, Hash)]
pub enum Scheme {
    Http,
    Https,
}

/// `http` or `https`.
pub open spec fn scheme_text(scheme: Scheme) -> Seq<char> {
    match scheme {
        Scheme::Http => seq!['h', 't', 't', 'p'],
        Scheme::Https => seq!['h', 't', 't', 'p', 's'],
    }
}

/// `<scheme>://<ip>:<port>`.
pub open spec fn connection_url(scheme: Scheme, ip: Ipv4Addr, port: u16) -> Seq<char> {
    scheme_text(scheme) + seq![':', '/', '/'] + ipv4_text(ip) + seq![':'] + decimal(port as nat)
}

impl Scheme {
    /// The lowercase protocol name.
    pub fn as_str(self) -> (r: &'static str)
        ensures
            r@ == scheme_text(self),
    {
        proof {
            reveal_strlit("http");
            reveal_strlit("https");
        }
        match self {
            Scheme::Http => "http",
            Scheme::Https => "https",
        }
    }

    /// The protocol name as an owned string, the same text as `as_str`.
    pub fn to_string(self) -> (r: String)
        ensures
            r@ == scheme_text(self),
    {
        String::from_str(self.as_str())
    }
}

/// One `<scheme>://<ip>:<port>` URL per address, in the order given.
pub fn render_connection_urls(scheme: Scheme, ips: &[Ipv4Addr], port: u16) -> (r: Vec<String>)
    ensures
        r@.len() == ips@.len(),
        forall|i: int| 0 <= i < r@.len() ==> (#[trigger] r@[i])@ == connection_url(
            scheme,
            ips@[i],
            port,
        ),
{
    let mut out: Vec<String> = Vec::new();
    let mut i: usize = 0;
    while i < ips.len()
        invariant
            i <= ips@.len(),
            out@.len() == i,
            forall|j: int| 0 <= j < i ==> (#[trigger] out@[j])@ == connection_url(
                scheme,
                ips@[j],
                port,
            ),
        decreases ips@.len() - i,
    {
        let mut url = String::from_str(scheme.as_str());
        push_char(&mut url, ':');
        push_char(&mut url, '/');
        push_char(&mut url, '/');
        push_ipv4(&mut url, &ips[i]);
        push_char(&mut url, ':');
        push_decimal(&mut url, port as u64);
        assert(url@ =~= connection_url(scheme, ips@[i as int], port));
        out.push(url);
        i = i + 1;
    }
    out
}

} // verus!
