//! The pairing link a QR code carries: `phonemic://pair?u=<url>&c=<code>`.

use vstd::prelude::*;
use vstd::utf8::*;
use vstd::string::StringExecFns;
use vstd::string::StringSliceAdditionalSpecFns;
use crate::codec::{lemma_base64url_text, base64url_bytes, base64url_decode, base64url_encode, base64url_text, is_base64url_char, string_from_utf8};
use crate::text::{chars_of, has_prefix_at, lemma_encode_utf8_concat, lemma_split_segment, next_sep, split_on, string_from_chars};

verus! {

broadcast use {encode_utf8_valid_utf8, encode_utf8_decode_utf8};

/// `phonemic://pair?`, the start of every pairing link.
pub open spec fn link_prefix() -> Seq<char> {
    "phonemic://pair?"@
}

/// The pairing link for a connection URL and a pairing code: the URL's
/// bytes in unpadded base64url as `u`, the code as `c`.
pub open spec fn pair_url_text(connect_url: Seq<char>, code: Seq<char>) -> Seq<char> {
    link_prefix() + seq!['u', '='] + base64url_text(encode_utf8(connect_url)) + seq!['&', 'c', '=']
        + code
}

/// The value after `key=` of the last parameter named `key`, if any.
pub open spec fn last_param(params: Seq<Seq<char>>, key: char) -> Option<Seq<char>>
    decreases params.len(),
{
    if params.len() == 0 {
        None
    } else if params.last().len() >= 2 && params.last()[0] == key && params.last()[1] == '=' {
        Some(params.last().skip(2))
    } else {
        last_param(params.drop_last(), key)
    }
}

/// What a pairing link carries: the connection URL and the pairing code, when
/// it has the right prefix, both parameters, and a `u` that decodes to UTF-8.
pub open spec fn parsed_pair_url(s: Seq<char>) -> Option<(Seq<char>, Seq<char>)> {
    if s.len() < 16 || s.take(16) != link_prefix() {
        None
    } else {
        let params = split_on(s.skip(16), '&');
        match (last_param(params, 'u'), last_param(params, 'c')) {
            (Some(u), Some(c)) => match base64url_bytes(encode_utf8(u)) {
                Some(bytes) => if valid_utf8(bytes) {
                    Some((decode_utf8(bytes), c))
                } else {
                    None
                },
                None => None,
            },
            _ => None,
        }
    }
}

/// The pairing link for `connect_url` and `pairing_code`.
pub fn build_pair_url(connect_url: &str, pairing_code: &str) -> (r: String)
    requires
        connect_url.spec_bytes().len() <= usize::MAX / 2,
    ensures
        r@ == pair_url_text(connect_url@, pairing_code@),
        (forall|i: int| 0 <= i < pairing_code@.len() ==> pairing_code@[i] != '&') ==> parsed_pair_url(
            r@,
        ) == Some((connect_url@, pairing_code@)),
{
    let u = base64url_encode(connect_url.as_bytes());
    let mut r = String::from_str("phonemic://pair?u=");
    r.append(u.as_str());
    r.append("&c=");
    r.append(pairing_code);
    proof {
        reveal_strlit("phonemic://pair?u=");
        reveal_strlit("phonemic://pair?");
        reveal_strlit("&c=");
        assert(r@ =~= pair_url_text(connect_url@, pairing_code@));
        lemma_base64url_text(connect_url.spec_bytes());
        if forall|i: int| 0 <= i < pairing_code@.len() ==> pairing_code@[i] != '&' {
            lemma_round_trip(r@, u@, connect_url@, pairing_code@);
        }
    }
    r
}

proof fn lemma_round_trip(s: Seq<char>, b: Seq<char>, url: Seq<char>, code: Seq<char>)
    requires
        s == pair_url_text(url, code),
        b == base64url_text(encode_utf8(url)),
        forall|i: int| 0 <= i < b.len() ==> is_base64url_char(#[trigger] b[i]),
        base64url_bytes(encode_utf8(b)) == Some(encode_utf8(url)),
        forall|i: int| 0 <= i < code.len() ==> code[i] != '&',
    ensures
        parsed_pair_url(s) == Some((url, code)),
{
    reveal_strlit("phonemic://pair?");
    assert(s.take(16) =~= link_prefix());
    let body = s.skip(16);
    let first = seq!['u', '='] + b;
    let second = seq!['c', '='] + code;
    assert(body =~= first + seq!['&'] + second);
    let k = first.len() as int;
    assert forall|i: int| 0 <= i < k implies body[i] != '&' by {
        if i >= 2 {
            assert(body[i] == b[i - 2]);
            assert(is_base64url_char(b[i - 2]));
        }
    }
    lemma_split_segment(body, '&', 0, k);
    assert(body.skip(0) =~= body);
    assert(body.subrange(0, k) =~= first);
    let rest = body.skip(k + 1);
    assert(rest =~= second);
    assert forall|i: int| 0 <= i < rest.len() implies rest[i] != '&' by {
        if i >= 2 {
            assert(rest[i] == code[i - 2]);
        }
    }
    lemma_split_segment(rest, '&', 0, rest.len() as int);
    assert(rest.skip(0) =~= rest);
    assert(rest.subrange(0, rest.len() as int) =~= second);
    let params = split_on(body, '&');
    assert(params =~= seq![first, second]);
    assert(params.drop_last() =~= seq![first]);
    assert(seq![first].drop_last() =~= Seq::<Seq<char>>::empty());
    assert(first.skip(2) =~= b);
    assert(second.skip(2) =~= code);
    assert(params.last() == second && second[0] == 'c');
    assert(params.drop_last().last() == first && first[0] == 'u' && first[1] == '=');
    assert(last_param(params.drop_last(), 'u') == Some(first.skip(2)));
    assert(last_param(params, 'u') == Some(b));
    assert(last_param(params, 'c') == Some(code));
}

/// The connection URL and pairing code of a pairing link, `None` when it is
/// not one.
pub fn parse_pair_url(s: &str) -> (r: Option<(String, String)>)
    ensures
        match parsed_pair_url(s@) {
            Some((u, c)) => r matches Some(p) && p.0@ == u && p.1@ == c,
            None => r is None,
        },
{
    let cs = chars_of(s);
    let prefix = chars_of("phonemic://pair?");
    proof {
        reveal_strlit("phonemic://pair?");
    }
    if !has_prefix_at(&cs, 0, &prefix) {
        proof {
            if cs@.len() >= 16 && cs@.take(16) == link_prefix() {
                assert(cs@.subrange(0, 16) =~= cs@.take(16));
            }
        }
        return None;
    }
    assert(cs@.take(16) =~= cs@.subrange(0, 16));
    let u_key = chars_of("u=");
    let c_key = chars_of("c=");
    proof {
        reveal_strlit("u=");
        reveal_strlit("c=");
    }
    let ghost all = split_on(cs@.skip(16), '&');
    let ghost mut done: Seq<Seq<char>> = Seq::empty();
    let mut u: Option<(usize, usize)> = None;
    let mut c: Option<(usize, usize)> = None;
    let mut a: usize = 16;
    loop
        invariant_except_break
            all == done + split_on(cs@.skip(a as int), '&'),
        invariant
            16 <= a <= cs@.len(),
            cs@ == s@,
            u_key@ == seq!['u', '='],
            c_key@ == seq!['c', '='],
            u matches Some(p) ==> p.0 <= p.1 <= cs@.len() && last_param(done, 'u') == Some(cs@.subrange(p.0 as int, p.1 as int)),
            u is None ==> last_param(done, 'u') is None,
            c matches Some(p) ==> p.0 <= p.1 <= cs@.len() && last_param(done, 'c') == Some(cs@.subrange(p.0 as int, p.1 as int)),
            c is None ==> last_param(done, 'c') is None,
        ensures
            all == done,
            u matches Some(p) ==> p.0 <= p.1 <= cs@.len() && last_param(done, 'u') == Some(cs@.subrange(p.0 as int, p.1 as int)),
            u is None ==> last_param(done, 'u') is None,
            c matches Some(p) ==> p.0 <= p.1 <= cs@.len() && last_param(done, 'c') == Some(cs@.subrange(p.0 as int, p.1 as int)),
            c is None ==> last_param(done, 'c') is None,
        decreases cs@.len() - a,
    {
        let e = next_sep(&cs, a, '&');
        proof {
            lemma_split_segment(cs@, '&', a as int, e as int);
        }
        let ghost seg = cs@.subrange(a as int, e as int);
        let ghost next = done.push(seg);
        assert(next.drop_last() =~= done);
        assert(next.last() == seg);
        if e - a >= 2 && has_prefix_at(&cs, a, &u_key) {
            assert(cs@.subrange(a as int, a + 2)[0] == seg[0]);
            assert(cs@.subrange(a as int, a + 2)[1] == seg[1]);
            assert(seg.skip(2) =~= cs@.subrange(a + 2, e as int));
            u = Some((a + 2, e));
        } else if e - a >= 2 && has_prefix_at(&cs, a, &c_key) {
            assert(cs@.subrange(a as int, a + 2)[0] == seg[0]);
            assert(cs@.subrange(a as int, a + 2)[1] == seg[1]);
            assert(seg.skip(2) =~= cs@.subrange(a + 2, e as int));
            c = Some((a + 2, e));
        } else {
            proof {
                if seg.len() >= 2 && seg[0] == 'u' && seg[1] == '=' {
                    assert(cs@.subrange(a as int, a + 2) =~= seq!['u', '=']);
                }
                if seg.len() >= 2 && seg[0] == 'c' && seg[1] == '=' {
                    assert(cs@.subrange(a as int, a + 2) =~= seq!['c', '=']);
                }
            }
        }
        proof {
            if seg.len() >= 2 && seg[0] == 'u' && seg[1] == '=' {
                assert(seg[0] != 'c');
            }
            done = next;
        }
        if e == cs.len() {
            assert(all == done);
            break;
        }
        assert(all == done + split_on(cs@.skip(e + 1), '&'));
        a = e + 1;
    }
    let (ua, ub) = match u {
        Some(p) => p,
        None => {
            return None;
        },
    };
    let u_text = string_from_chars(&cs, ua, ub);
    let decoded = match base64url_decode(u_text.as_str().as_bytes()) {
        Some(b) => b,
        None => {
            return None;
        },
    };
    let url = match string_from_utf8(decoded) {
        Some(t) => t,
        None => {
            return None;
        },
    };
    let (ca, cb) = match c {
        Some(p) => p,
        None => {
            return None;
        },
    };
    let code = string_from_chars(&cs, ca, cb);
    Some((url, code))
}

/// What rendering `data` as a QR code at error-correction level M, at least
/// 256 by 256, gives: the SVG text, or the message of the encoder's refusal.
pub uninterp spec fn qr_svg_m(data: Seq<u8>) -> Result<Seq<char>, Seq<char>>;

/// Start of every SVG the `qrcode` renderer writes.
pub open spec fn svg_head() -> Seq<char> {
    "<?xml version=\"1.0\" standalone=\"yes\"?><svg xmlns=\"http://www.w3.org/2000/svg\""@
}

/// End of every SVG the `qrcode` renderer writes.
pub open spec fn svg_tail() -> Seq<char> {
    "\"/></svg>"@
}

/// `QrCode::with_error_correction_level(data, EcLevel::M)` rendered with
/// `render::<svg::Color>().min_dimensions(256, 256).build()`, the encoder's
/// error turned into its message. The renderer's text always opens with the
/// XML declaration and `<svg` element and closes the path and the `svg`
/// element (as its source writes them).
#[verifier::external_body]
fn render_qr_svg_m(data: &[u8]) -> (r: Result<String, String>)
    ensures
        match r {
            Ok(s) => qr_svg_m(data@) == Ok::<Seq<char>, Seq<char>>(s@),
            Err(m) => qr_svg_m(data@) == Err::<Seq<char>, Seq<char>>(m@),
        },
        r matches Ok(s) ==> s@.len() >= svg_head().len() + svg_tail().len() && s@.take(svg_head().len() as int) == svg_head()
            && s@.skip(s@.len() - svg_tail().len()) == svg_tail(),
{
    match qrcode::QrCode::with_error_correction_level(data, qrcode::EcLevel::M) {
        Ok(code) => Ok(code.render::<qrcode::render::svg::Color<'_>>().min_dimensions(256, 256).build()),
        Err(e) => Err(e.to_string()),
    }
}

/// Why a QR code could not be made or read.
#[derive(Debug, Clone, PartialEq, Eq)]
pub enum QrError {
    Encode(String),
    Decode(String),
}

impl QrError {
    /// The message.
    pub fn to_string(&self) -> (r: String)
        ensures
            r@ == match self {
                QrError::Encode(m) => "qr encode failed: "@ + m@,
                QrError::Decode(m) => "qr decode failed: "@ + m@,
            },
    {
        match self {
            QrError::Encode(m) => {
                let mut s = String::from_str("qr encode failed: ");
                s.append(m.as_str());
                s
            },
            QrError::Decode(m) => {
                let mut s = String::from_str("qr decode failed: ");
                s.append(m.as_str());
                s
            },
        }
    }
}

/// The outcome of rendering a link: the SVG, or the encoder's message as an
/// encode error.
pub fn qr_result(rendered: Result<String, String>) -> (r: Result<String, QrError>)
    ensures
        match rendered {
            Ok(s) => r matches Ok(t) && t@ == s@,
            Err(m) => r matches Err(QrError::Encode(t)) && t@ == m@,
        },
{
    match rendered {
        Ok(s) => Ok(s),
        Err(m) => Err(QrError::Encode(m)),
    }
}

/// The pairing link for `connect_url` and `pairing_code` as a QR code in SVG.
pub fn qr_encode(connect_url: &str, pairing_code: &str) -> (r: Result<String, QrError>)
    requires
        connect_url.spec_bytes().len() <= usize::MAX / 2,
    ensures
        match qr_svg_m(encode_utf8(pair_url_text(connect_url@, pairing_code@))) {
            Ok(s) => r matches Ok(t) && t@ == s,
            Err(m) => r matches Err(QrError::Encode(t)) && t@ == m,
        },
        r matches Ok(t) ==> t@.take(svg_head().len() as int) == svg_head(),
{
    let payload = build_pair_url(connect_url, pairing_code);
    qr_result(render_qr_svg_m(payload.as_str().as_bytes()))
}

} // verus!
