//! Decisions the HTTP layer makes on every request: who the peer is, whether
//! it may talk to us, and which credential a request carries.

use vstd::prelude::*;
use vstd::utf8::*;
use vstd::string::StringSliceAdditionalSpecFns;
use crate::lan_filter::{is_rfc1918, spec_is_rfc1918};
use crate::net::IpAddr;
use crate::session::{SessionRegistry, SessionToken};
use crate::text::{byte_len, chars_of, has_prefix_at, is_white_space, lemma_encode_utf8_ascii_len, lemma_split_segment, next_sep, split_on, string_from_chars, trim_bounds, trim_end, trim_start, trimmed};
use crate::codec::is_base64url_char;

verus! {

/// The pieces of `s` between commas, as `str::split(',')` yields them.
pub open spec fn split_commas(s: Seq<char>) -> Seq<Seq<char>> {
    split_on(s, ',')
}

/// `Bearer `, the scheme prefix of a bearer credential.
pub open spec fn bearer_prefix() -> Seq<char> {
    seq!['B', 'e', 'a', 'r', 'e', 'r', ' ']
}

/// `phonemic.`, the prefix of the WebSocket subprotocol that carries a token.
pub open spec fn protocol_prefix() -> Seq<char> {
    seq!['p', 'h', 'o', 'n', 'e', 'm', 'i', 'c', '.']
}

/// The token of an `Authorization` value: what follows `Bearer `, trimmed,
/// when that is not empty.
pub open spec fn bearer_token(value: Seq<char>) -> Option<Seq<char>> {
    if value.len() >= 7 && value.take(7) == bearer_prefix() {
        let t = trimmed(value.skip(7));
        if t.len() > 0 {
            Some(t)
        } else {
            None
        }
    } else {
        None
    }
}

/// The token of one subprotocol entry: what follows `phonemic.` in the
/// trimmed entry, when that is not empty.
pub open spec fn protocol_token(entry: Seq<char>) -> Option<Seq<char>> {
    let t = trimmed(entry);
    if t.len() > 9 && t.take(9) == protocol_prefix() {
        Some(t.skip(9))
    } else {
        None
    }
}

/// The token of the first entry that carries one.
pub open spec fn first_protocol_token(entries: Seq<Seq<char>>) -> Option<Seq<char>>
    decreases entries.len(),
{
    if entries.len() == 0 {
        None
    } else {
        match protocol_token(entries[0]) {
            Some(t) => Some(t),
            None => first_protocol_token(entries.drop_first()),
        }
    }
}

/// Loopback, or a private IPv4 range.
pub open spec fn spec_is_lan_or_loopback(ip: IpAddr) -> bool {
    match ip {
        IpAddr::V4(v4) => v4.spec_is_loopback() || spec_is_rfc1918(v4),
        IpAddr::V6(v6) => v6.spec_is_loopback(),
    }
}

/// The first entry of an `X-Forwarded-For` value, trimmed: the address of
/// the client that the first proxy saw.
pub fn forwarded_for_first(value: &str) -> (r: String)
    ensures
        r@ == trimmed(split_commas(value@)[0]),
{
    let cs = chars_of(value);
    let e = next_sep(&cs, 0, ',');
    proof {
        lemma_split_segment(cs@, ',', 0, e as int);
        assert(cs@.skip(0) =~= cs@);
    }
    let (lo, hi) = trim_bounds(&cs, 0, e);
    string_from_chars(&cs, lo, hi)
}

/// The peer to judge a request by: the forwarded client address when the
/// request carried one that parses, the connecting address otherwise.
pub fn effective_peer_ip(direct: IpAddr, forwarded: Option<IpAddr>) -> (r: IpAddr)
    ensures
        r == (match forwarded {
            Some(ip) => ip,
            None => direct,
        }),
{
    match forwarded {
        Some(ip) => ip,
        None => direct,
    }
}

/// Whether a peer may use the service: loopback, or a private IPv4 address.
pub fn is_lan_or_loopback(ip: IpAddr) -> (r: bool)
    ensures
        r == spec_is_lan_or_loopback(ip),
{
    match ip {
        IpAddr::V4(v4) => v4.is_loopback() || is_rfc1918(v4),
        IpAddr::V6(v6) => v6.is_loopback(),
    }
}

/// The bearer token of an `Authorization` header value, if it carries one.
pub fn extract_bearer_token(authorization: Option<&str>) -> (r: Option<String>)
    ensures
        match authorization {
            None => r is None,
            Some(v) => match bearer_token(v@) {
                Some(t) => r matches Some(s) && s@ == t,
                None => r is None,
            },
        },
{
    let value = match authorization {
        Some(v) => v,
        None => {
            return None;
        },
    };
    let cs = chars_of(value);
    let prefix = chars_of("Bearer ");
    proof {
        reveal_strlit("Bearer ");
        assert(prefix@ == bearer_prefix());
    }
    if !has_prefix_at(&cs, 0, &prefix) {
        assert(!(cs@.len() >= 7 && cs@.take(7) == bearer_prefix())) by {
            if cs@.len() >= 7 && cs@.take(7) == bearer_prefix() {
                assert(cs@.subrange(0, 7) =~= cs@.take(7));
            }
        }
        return None;
    }
    assert(cs@.take(7) =~= cs@.subrange(0, 7));
    let (lo, hi) = trim_bounds(&cs, 7, cs.len());
    assert(cs@.skip(7) =~= cs@.subrange(7, cs@.len() as int));
    if lo == hi {
        return None;
    }
    Some(string_from_chars(&cs, lo, hi))
}

/// The token carried by a `Sec-WebSocket-Protocol` value: the first entry
/// of the form `phonemic.<token>`.
pub fn extract_ws_protocol_token(protocols: Option<&str>) -> (r: Option<String>)
    ensures
        match protocols {
            None => r is None,
            Some(v) => match first_protocol_token(split_commas(v@)) {
                Some(t) => r matches Some(s) && s@ == t,
                None => r is None,
            },
        },
{
    let value = match protocols {
        Some(v) => v,
        None => {
            return None;
        },
    };
    let cs = chars_of(value);
    let prefix = chars_of("phonemic.");
    proof {
        reveal_strlit("phonemic.");
        assert(prefix@ == protocol_prefix());
        assert(cs@.skip(0) =~= cs@);
    }
    let mut a: usize = 0;
    loop
        invariant
            a <= cs@.len(),
            cs@ == value@,
            protocols == Some(value),
            prefix@ == protocol_prefix(),
            first_protocol_token(split_commas(value@)) == first_protocol_token(
                split_commas(cs@.skip(a as int)),
            ),
        decreases cs@.len() - a,
    {
        let e = next_sep(&cs, a, ',');
        proof {
            lemma_split_segment(cs@, ',', a as int, e as int);
        }
        let ghost entry = cs@.subrange(a as int, e as int);
        let (lo, hi) = trim_bounds(&cs, a, e);
        let ghost t = cs@.subrange(lo as int, hi as int);
        if hi - lo > 9 && has_prefix_at(&cs, lo, &prefix) {
            assert(t.take(9) =~= cs@.subrange(lo as int, lo + 9));
            assert(t.skip(9) =~= cs@.subrange(lo + 9, hi as int));
            assert(split_commas(cs@.skip(a as int))[0] == entry);
            assert(protocol_token(entry) == Some(t.skip(9)));
            return Some(string_from_chars(&cs, lo + 9, hi));
        }
        assert(protocol_token(entry) is None) by {
            if t.len() > 9 && t.take(9) == protocol_prefix() {
                assert(t.take(9) =~= cs@.subrange(lo as int, lo + 9));
            }
        }
        if e == cs.len() {
            proof {
                let segs = split_commas(cs@.skip(a as int));
                assert(segs[0] == entry);
                assert(segs.drop_first() =~= Seq::<Seq<char>>::empty());
                assert(first_protocol_token(segs.drop_first()) is None);
                assert(protocol_token(segs[0]) is None);
                assert(first_protocol_token(segs) is None);
            }
            return None;
        }
        proof {
            let segs = split_commas(cs@.skip(a as int));
            assert(segs[0] == entry);
            assert(segs.drop_first() =~= split_commas(cs@.skip(e + 1)));
        }
        a = e + 1;
    }
}

/// Whether a request's `Authorization` value names a live session: a bearer
/// token of 43 bytes that the registry knows and has not revoked.
pub fn is_authorized(registry: &SessionRegistry, authorization: Option<&str>) -> (r: bool)
    requires
        registry.wf(),
    ensures
        r == (match authorization {
            Some(v) => match bearer_token(v@) {
                Some(t) => encode_utf8(t).len() == 43 && registry.live().contains_key(t),
                None => false,
            },
            None => false,
        }),
{
    let token_str = match extract_bearer_token(authorization) {
        Some(t) => t,
        None => {
            return false;
        },
    };
    if byte_len(token_str.as_str()) != 43 {
        return false;
    }
    let token = SessionToken::from_validated(token_str);
    registry.validate(&token).is_ok()
}

/// A token as the registry issues it (43 base64url characters, of a live
/// session) is accepted by both checks: `Bearer <token>` authorizes a
/// request, and the subprotocol entry `phonemic.<token>` carries it with
/// the 43 bytes an upgrade asks for.
pub proof fn lemma_issued_token_accepted(registry: SessionRegistry, t: Seq<char>)
    requires
        registry.live().contains_key(t),
        t.len() == 43,
        forall|i: int| 0 <= i < t.len() ==> is_base64url_char(#[trigger] t[i]),
    ensures
        bearer_token(bearer_prefix() + t) == Some(t),
        protocol_token(protocol_prefix() + t) == Some(t),
        encode_utf8(t).len() == 43,
        registry.live().contains_key(t),
{
    assert forall|i: int| 0 <= i < t.len() implies (#[trigger] t[i]) as u32 <= 0x7F by {
        assert(is_base64url_char(t[i]));
    }
    lemma_encode_utf8_ascii_len(t);
    assert(is_base64url_char(t[0]));
    assert(is_base64url_char(t.last()));
    assert(!is_white_space(t[0]));
    assert(!is_white_space(t.last()));
    let b = bearer_prefix() + t;
    assert(b.take(7) =~= bearer_prefix());
    assert(b.skip(7) =~= t);
    assert(trim_start(t) == t);
    assert(trim_end(t) == t);
    let p = protocol_prefix() + t;
    assert(p[0] == 'p');
    assert(p.last() == t.last());
    assert(trim_start(p) == p);
    assert(trim_end(p) == p);
    assert(p.take(9) =~= protocol_prefix());
    assert(p.skip(9) =~= t);
}

} // verus!
