//! IP address values as plain data: the pieces of an address that the
//! subnet rules and the per-client bookkeeping read.

use vstd::prelude::*;
use crate::text::{chars_of, decimal, lemma_split_segment, next_sep, push_char, push_decimal, split_on};

verus! {

/// An IPv4 address, held as its four octets in network order.
#[derive(Clone, Copy, Debug, PartialEq, Eq, Structural)]
pub struct Ipv4Addr {
    pub a: u8,
    pub b: u8,
    pub c: u8,
    pub d: u8,
}

/// An IPv6 address, held as its eight 16-bit segments in network order.
#[derive(Clone, Copy, Debug, PartialEq, Eq, Structural)]
pub struct Ipv6Addr {
    pub s0: u16,
    pub s1: u16,
    pub s2: u16,
    pub s3: u16,
    pub s4: u16,
    pub s5: u16,
    pub s6: u16,
    pub s7: u16,
}

/// Either kind of IP address.
#[derive(Clone, Copy, Debug, PartialEq, Eq, Structural)]
pub enum IpAddr {
    V4(Ipv4Addr),
    V6(Ipv6Addr),
}

impl Ipv4Addr {
    /// Builds `a.b.c.d`.
    pub fn new(a: u8, b: u8, c: u8, d: u8) -> (ip: Ipv4Addr)
        ensures
            ip == (Ipv4Addr { a, b, c, d }),
    {
        Ipv4Addr { a, b, c, d }
    }

    /// The four octets, most significant first.
    pub fn octets(&self) -> (o: [u8; 4])
        ensures
            o@ == seq![self.a, self.b, self.c, self.d],
    {
        [self.a, self.b, self.c, self.d]
    }

    /// `127.0.0.0/8`.
    pub open spec fn spec_is_loopback(self) -> bool {
        self.a == 127
    }

    /// Whether the address lies in `127.0.0.0/8`.
    pub fn is_loopback(&self) -> (r: bool)
        ensures
            r == self.spec_is_loopback(),
    {
        self.a == 127
    }
}

impl Ipv6Addr {
    /// Builds an address from its eight segments.
    pub fn new(s0: u16, s1: u16, s2: u16, s3: u16, s4: u16, s5: u16, s6: u16, s7: u16) -> (ip:
        Ipv6Addr)
        ensures
            ip == (Ipv6Addr { s0, s1, s2, s3, s4, s5, s6, s7 }),
    {
        Ipv6Addr { s0, s1, s2, s3, s4, s5, s6, s7 }
    }

    /// `::1`.
    pub open spec fn spec_is_loopback(self) -> bool {
        &&& self.s0 == 0
        &&& self.s1 == 0
        &&& self.s2 == 0
        &&& self.s3 == 0
        &&& self.s4 == 0
        &&& self.s5 == 0
        &&& self.s6 == 0
        &&& self.s7 == 1
    }

    /// Whether the address is `::1`.
    pub fn is_loopback(&self) -> (r: bool)
        ensures
            r == self.spec_is_loopback(),
    {
        self.s0 == 0 && self.s1 == 0 && self.s2 == 0 && self.s3 == 0 && self.s4 == 0 && self.s5
            == 0 && self.s6 == 0 && self.s7 == 1
    }
}

/// Dotted-decimal text of an IPv4 address, as in `192.168.1.10`.
pub open spec fn ipv4_text(ip: Ipv4Addr) -> Seq<char> {
    decimal(ip.a as nat) + seq!['.'] + decimal(ip.b as nat) + seq!['.'] + decimal(ip.c as nat)
        + seq!['.'] + decimal(ip.d as nat)
}

/// Appends the dotted-decimal text of `ip`.
pub fn push_ipv4(s: &mut String, ip: &Ipv4Addr)
    ensures
        final(s)@ == old(s)@ + ipv4_text(*ip),
{
    let ghost start = s@;
    push_decimal(s, ip.a as u64);
    push_char(s, '.');
    push_decimal(s, ip.b as u64);
    push_char(s, '.');
    push_decimal(s, ip.c as u64);
    push_char(s, '.');
    push_decimal(s, ip.d as u64);
    assert(s@ =~= start + ipv4_text(*ip));
}

impl Ipv4Addr {
    /// Dotted-decimal text, as in `192.168.1.10`.
    pub fn to_string(&self) -> (r: String)
        ensures
            r@ == ipv4_text(*self),
    {
        let mut r = String::new();
        push_ipv4(&mut r, self);
        assert(r@ =~= ipv4_text(*self));
        r
    }
}

/// An ASCII decimal digit.
pub open spec fn is_digit(c: char) -> bool {
    '0' <= c && c <= '9'
}

/// The number a run of ASCII digits spells.
pub open spec fn digits_value(p: Seq<char>) -> nat
    decreases p.len(),
{
    if p.len() == 0 {
        0
    } else {
        digits_value(p.drop_last()) * 10 + (p.last() as nat - '0' as nat) as nat
    }
}

/// One octet of dotted-decimal text: one to three digits, no leading zero
/// unless the octet is `0`, at most 255.
pub open spec fn octet_value(p: Seq<char>) -> Option<u8> {
    if 1 <= p.len() <= 3 && (forall|i: int| 0 <= i < p.len() ==> is_digit(#[trigger] p[i])) && (
    p.len() == 1 || p[0] != '0') && digits_value(p) <= 255 {
        Some(digits_value(p) as u8)
    } else {
        None
    }
}

/// The IPv4 address dotted-decimal text spells: four octets separated by
/// dots, nothing else.
pub open spec fn ipv4_from_text(s: Seq<char>) -> Option<Ipv4Addr> {
    let parts = split_on(s, '.');
    if parts.len() == 4 && octet_value(parts[0]) is Some && octet_value(parts[1]) is Some
        && octet_value(parts[2]) is Some && octet_value(parts[3]) is Some {
        Some(
            Ipv4Addr {
                a: octet_value(parts[0])->0,
                b: octet_value(parts[1])->0,
                c: octet_value(parts[2])->0,
                d: octet_value(parts[3])->0,
            },
        )
    } else {
        None
    }
}

proof fn lemma_split_len(s: Seq<char>, sep: char)
    ensures
        split_on(s, sep).len() >= 1,
    decreases s.len(),
{
    if s.len() > 0 {
        lemma_split_len(s.drop_first(), sep);
    }
}

/// The octet spelled by `cs[a..e]`.
fn parse_octet(cs: &Vec<char>, a: usize, e: usize) -> (r: Option<u8>)
    requires
        a <= e <= cs@.len(),
    ensures
        r == octet_value(cs@.subrange(a as int, e as int)),
{
    let ghost p = cs@.subrange(a as int, e as int);
    let n: usize = e - a;
    if n < 1 || n > 3 {
        return None;
    }
    if n > 1 && cs[a] == '0' {
        assert(p[0] == '0');
        return None;
    }
    let mut v: u32 = 0;
    let mut i: usize = a;
    while i < e
        invariant
            a <= i <= e,
            e <= cs@.len(),
            e - a <= 3,
            p == cs@.subrange(a as int, e as int),
            v == digits_value(cs@.subrange(a as int, i as int)),
            i - a == 0 ==> v == 0,
            i - a == 1 ==> v < 10,
            i - a == 2 ==> v < 100,
            i - a == 3 ==> v < 1000,
            forall|j: int| a <= j < i ==> is_digit(#[trigger] cs@[j]),
        decreases e - i,
    {
        let c = cs[i];
        if !('0' <= c && c <= '9') {
            assert(p[i - a] == c);
            return None;
        }
        let d: u32 = (c as u32) - ('0' as u32);
        proof {
            let q = cs@.subrange(a as int, i + 1);
            assert(q.drop_last() =~= cs@.subrange(a as int, i as int));
            assert(q.last() == c);
        }
        v = v * 10 + d;
        i = i + 1;
    }
    assert(cs@.subrange(a as int, e as int) =~= p);
    assert forall|j: int| 0 <= j < p.len() implies is_digit(#[trigger] p[j]) by {
        assert(p[j] == cs@[a + j]);
    }
    if v > 255 {
        None
    } else {
        Some(v as u8)
    }
}

/// The IPv4 address dotted-decimal text spells, if it spells one.
pub fn parse_ipv4(s: &str) -> (r: Option<Ipv4Addr>)
    ensures
        r == ipv4_from_text(s@),
{
    let cs = chars_of(s);
    let ghost t = cs@;
    assert(t.skip(0) =~= t);
    let n = cs.len();
    let e0 = next_sep(&cs, 0, '.');
    proof {
        lemma_split_segment(t, '.', 0, e0 as int);
    }
    if e0 == n {
        return None;
    }
    let e1 = next_sep(&cs, e0 + 1, '.');
    proof {
        lemma_split_segment(t, '.', e0 + 1, e1 as int);
    }
    if e1 == n {
        return None;
    }
    let e2 = next_sep(&cs, e1 + 1, '.');
    proof {
        lemma_split_segment(t, '.', e1 + 1, e2 as int);
    }
    if e2 == n {
        return None;
    }
    let e3 = next_sep(&cs, e2 + 1, '.');
    proof {
        lemma_split_segment(t, '.', e2 + 1, e3 as int);
        if e3 < n {
            lemma_split_len(t.skip(e3 + 1), '.');
        }
    }
    let ghost parts = split_on(t, '.');
    if e3 != n {
        assert(parts.len() > 4);
        return None;
    }
    assert(parts.len() == 4);
    assert(parts[0] == t.subrange(0, e0 as int));
    assert(parts[1] == t.subrange(e0 + 1, e1 as int));
    assert(parts[2] == t.subrange(e1 + 1, e2 as int));
    assert(parts[3] == t.subrange(e2 + 1, e3 as int));
    let a = match parse_octet(&cs, 0, e0) {
        Some(x) => x,
        None => {
            return None;
        },
    };
    let b = match parse_octet(&cs, e0 + 1, e1) {
        Some(x) => x,
        None => {
            return None;
        },
    };
    let c = match parse_octet(&cs, e1 + 1, e2) {
        Some(x) => x,
        None => {
            return None;
        },
    };
    let d = match parse_octet(&cs, e2 + 1, e3) {
        Some(x) => x,
        None => {
            return None;
        },
    };
    Some(Ipv4Addr { a, b, c, d })
}


proof fn lemma_decimal_digits(n: nat)
    ensures
        decimal(n).len() >= 1,
        forall|i: int| 0 <= i < decimal(n).len() ==> is_digit(#[trigger] decimal(n)[i]),
        digits_value(decimal(n)) == n,
        n >= 1 ==> decimal(n)[0] != '0',
        n < 10 ==> decimal(n).len() == 1,
        n < 100 ==> decimal(n).len() <= 2,
        n < 1000 ==> decimal(n).len() <= 3,
    decreases n,
{
    let d = decimal(n);
    if n < 10 {
        assert(d == seq![crate::text::digit_char(n)]);
        assert(d.drop_last() =~= Seq::<char>::empty());
        assert(digits_value(d.drop_last()) == 0);
    } else {
        let q = n / 10;
        lemma_decimal_digits(q);
        let dq = decimal(q);
        assert(d == dq.push(crate::text::digit_char(n % 10)));
        assert(d.drop_last() =~= dq);
        assert(d[0] == dq[0]);
        assert forall|i: int| 0 <= i < d.len() implies is_digit(#[trigger] d[i]) by {
            if i < dq.len() {
                assert(d[i] == dq[i]);
            }
        }
    }
}

proof fn lemma_octet_of_decimal(x: u8)
    ensures
        octet_value(decimal(x as nat)) == Some(x),
{
    lemma_decimal_digits(x as nat);
}

proof fn lemma_no_dot_in_decimal(n: nat)
    ensures
        forall|i: int| 0 <= i < decimal(n).len() ==> #[trigger] decimal(n)[i] != '.',
{
    lemma_decimal_digits(n);
    assert forall|i: int| 0 <= i < decimal(n).len() implies #[trigger] decimal(n)[i] != '.' by {
        assert(is_digit(decimal(n)[i]));
    }
}

/// Reading back the dotted-decimal text of an address gives the address:
/// `parse_ipv4` undoes `Ipv4Addr::to_string`.
pub proof fn lemma_ipv4_text_round_trip(ip: Ipv4Addr)
    ensures
        ipv4_from_text(ipv4_text(ip)) == Some(ip),
{
    let da = decimal(ip.a as nat);
    let db = decimal(ip.b as nat);
    let dc = decimal(ip.c as nat);
    let dd = decimal(ip.d as nat);
    lemma_no_dot_in_decimal(ip.a as nat);
    lemma_no_dot_in_decimal(ip.b as nat);
    lemma_no_dot_in_decimal(ip.c as nat);
    lemma_no_dot_in_decimal(ip.d as nat);
    lemma_octet_of_decimal(ip.a);
    lemma_octet_of_decimal(ip.b);
    lemma_octet_of_decimal(ip.c);
    lemma_octet_of_decimal(ip.d);
    let t = ipv4_text(ip);
    let e0 = da.len() as int;
    let e1 = e0 + 1 + db.len();
    let e2 = e1 + 1 + dc.len();
    let e3 = e2 + 1 + dd.len();
    assert(t.len() == e3);
    assert(t.subrange(0, e0) =~= da);
    assert(t.subrange(e0 + 1, e1) =~= db);
    assert(t.subrange(e1 + 1, e2) =~= dc);
    assert(t.subrange(e2 + 1, e3) =~= dd);
    assert(t[e0] == '.' && t[e1] == '.' && t[e2] == '.');
    assert forall|i: int| 0 <= i < e0 implies t[i] != '.' by {
        assert(t[i] == da[i]);
    }
    assert forall|i: int| e0 + 1 <= i < e1 implies t[i] != '.' by {
        assert(t[i] == db[i - e0 - 1]);
    }
    assert forall|i: int| e1 + 1 <= i < e2 implies t[i] != '.' by {
        assert(t[i] == dc[i - e1 - 1]);
    }
    assert forall|i: int| e2 + 1 <= i < e3 implies t[i] != '.' by {
        assert(t[i] == dd[i - e2 - 1]);
    }
    assert(t.skip(0) =~= t);
    lemma_split_segment(t, '.', 0, e0);
    lemma_split_segment(t, '.', e0 + 1, e1);
    lemma_split_segment(t, '.', e1 + 1, e2);
    lemma_split_segment(t, '.', e2 + 1, e3);
    let parts = split_on(t, '.');
    assert(parts =~= seq![da, db, dc, dd]);
}

} // verus!
