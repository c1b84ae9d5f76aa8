//! The plain-HTTP answer that sends a client to the HTTPS port, without the
//! query string (which may hold a pairing code or a token).

use vstd::prelude::*;
use vstd::string::StringExecFns;

verus! {

/// The status of the redirect to HTTPS: 308 Permanent Redirect (the method
/// and body are kept).
pub const REDIRECT_STATUS: u16 = 308;

/// What `http::Uri` parsing makes of `s`: its path, `None` when `s` is no
/// URI.
pub uninterp spec fn uri_path(s: Seq<char>) -> Option<Seq<char>>;

/// `s.parse::<http::Uri>()` and then `path()`. The parser ends the path at
/// the first `?`, so a path holds none.
#[verifier::external_body]
fn parse_uri_path(s: &str) -> (r: Option<String>)
    ensures
        match r {
            Some(p) => uri_path(s@) == Some(p@),
            None => uri_path(s@) is None,
        },
        r matches Some(p) ==> forall|i: int| 0 <= i < p@.len() ==> p@[i] != '?',
{
    match s.parse::<http::Uri>() {
        Ok(u) => Some(u.path().to_owned()),
        Err(_) => None,
    }
}

/// The redirect head for `https_host` and the path of the requested URI.
pub open spec fn redirect_text(https_host: Seq<char>, path: Seq<char>) -> Seq<char> {
    "HTTP/1.1 308 Permanent Redirect\r\nlocation: https://"@ + https_host + path
        + "\r\ncache-control: no-store\r\ncontent-length: 0\r\n\r\n"@
}

/// The redirect head once the requested URI was parsed: its path, or no path
/// when it was no URI.
pub fn redirect_text_for(parsed_path: Option<String>, https_host: &str) -> (r: String)
    ensures
        r@ == redirect_text(
            https_host@,
            match parsed_path {
                Some(p) => p@,
                None => Seq::<char>::empty(),
            },
        ),
{
    let mut out = String::from_str("HTTP/1.1 308 Permanent Redirect\r\nlocation: https://");
    out.append(https_host);
    match &parsed_path {
        Some(p) => out.append(p.as_str()),
        None => {},
    }
    out.append("\r\ncache-control: no-store\r\ncontent-length: 0\r\n\r\n");
    proof {
        if parsed_path is None {
            assert(out@ =~= redirect_text(https_host@, Seq::<char>::empty()));
        }
    }
    out
}

/// The redirect head for a request target: permanent redirect (308) to the
/// same path on `https_host`, the query left out, nothing cached, no body.
pub fn redirect_response_text(path: &str, https_host: &str) -> (r: String)
    ensures
        r@ == redirect_text(
            https_host@,
            match uri_path(path@) {
                Some(p) => p,
                None => Seq::<char>::empty(),
            },
        ),
        exists|p: Seq<char>|
            (forall|i: int| 0 <= i < p.len() ==> p[i] != '?') && r@ == redirect_text(https_host@, p),
{
    let parsed = parse_uri_path(path);
    let r = redirect_text_for(parsed, https_host);
    proof {
        let p = match uri_path(path@) {
            Some(p) => p,
            None => Seq::<char>::empty(),
        };
        assert(forall|i: int| 0 <= i < p.len() ==> p[i] != '?');
        assert(r@ == redirect_text(https_host@, p));
    }
    r
}


/// The redirect target for a request target: `https://<host>` and the path
/// of the requested URI (none when it is no URI), never its query.
pub fn redirect_location(path: &str, https_host: &str) -> (r: String)
    ensures
        r@ == "https://"@ + https_host@ + match uri_path(path@) {
            Some(p) => p,
            None => Seq::<char>::empty(),
        },
        exists|p: Seq<char>|
            (forall|i: int| 0 <= i < p.len() ==> p[i] != '?') && r@ == "https://"@ + https_host@ + p,
{
    let parsed = parse_uri_path(path);
    let mut out = String::from_str("https://");
    out.append(https_host);
    match &parsed {
        Some(p) => out.append(p.as_str()),
        None => {},
    }
    proof {
        reveal_strlit("https://");
        let p = match uri_path(path@) {
            Some(p) => p,
            None => Seq::<char>::empty(),
        };
        if parsed is None {
            assert(out@ =~= "https://"@ + https_host@ + Seq::<char>::empty());
        }
        assert(forall|i: int| 0 <= i < p.len() ==> p[i] != '?');
        assert(out@ == "https://"@ + https_host@ + p);
    }
    out
}

} // verus!
