//! Calls into the hashing, encoding, comparison and randomness crates, each
//! behind a small trusted wrapper whose contract says what the call returns.

use vstd::prelude::*;
use vstd::utf8::*;
use vstd::string::StringSliceAdditionalSpecFns;
use base64::Engine;
use rand::Rng;
use rand::RngCore;
use sha2::Digest;
use subtle::ConstantTimeEq;

verus! {

/// The SHA-256 digest of `data`.
pub uninterp spec fn sha256(data: Seq<u8>) -> Seq<u8>;

/// The base64url (RFC 4648 §5) character for a six-bit value: `A-Z`,
/// `a-z`, `0-9`, then `-` and `_`.
pub open spec fn b64url_char(v: int) -> char {
    if v < 26 {
        (65 + v) as char
    } else if v < 52 {
        (97 + (v - 26)) as char
    } else if v < 62 {
        (48 + (v - 52)) as char
    } else if v == 62 {
        '-'
    } else {
        '_'
    }
}

/// The unpadded base64url text of `data`: each group of three bytes as four
/// characters of six bits each, high bits first; a last group of one or two
/// bytes as two or three characters, its missing bits taken as zero.
pub open spec fn base64url_text(data: Seq<u8>) -> Seq<char>
    decreases data.len(),
{
    if data.len() == 0 {
        Seq::empty()
    } else if data.len() == 1 {
        seq![b64url_char((data[0] as int) / 4), b64url_char(((data[0] as int) % 4) * 16)]
    } else if data.len() == 2 {
        seq![
            b64url_char((data[0] as int) / 4),
            b64url_char(((data[0] as int) % 4) * 16 + (data[1] as int) / 16),
            b64url_char(((data[1] as int) % 16) * 4),
        ]
    } else {
        seq![
            b64url_char((data[0] as int) / 4),
            b64url_char(((data[0] as int) % 4) * 16 + (data[1] as int) / 16),
            b64url_char(((data[1] as int) % 16) * 4 + (data[2] as int) / 64),
            b64url_char((data[2] as int) % 64),
        ] + base64url_text(data.subrange(3, data.len() as int))
    }
}

/// What unpadded base64url decoding makes of the bytes `text`, `None` when
/// they are not a valid encoding.
pub uninterp spec fn base64url_bytes(text: Seq<u8>) -> Option<Seq<u8>>;

/// Lowercase hexadecimal digit for a nibble.
pub open spec fn hex_digit_lower(n: u8) -> char {
    if n < 10 {
        ('0' as u8 + n) as char
    } else {
        ('a' as u8 + (n - 10)) as char
    }
}

/// Lowercase hexadecimal text of `data`: two digits per byte, high nibble first.
pub open spec fn hex_lower(data: Seq<u8>) -> Seq<char> {
    data.flat_map(|b: u8| seq![hex_digit_lower(b / 16), hex_digit_lower(b % 16)])
}

/// A character of the base64url alphabet `A-Z a-z 0-9 - _`.
pub open spec fn is_base64url_char(c: char) -> bool {
    ||| 'A' <= c <= 'Z'
    ||| 'a' <= c <= 'z'
    ||| '0' <= c <= '9'
    ||| c == '-'
    ||| c == '_'
}

/// `sha2::Sha256::digest`: the digest of `data` (always 32 bytes, the output
/// type's fixed size).
#[verifier::external_body]
pub(crate) fn sha256_digest(data: &[u8]) -> (r: Vec<u8>)
    ensures
        r@ == sha256(data@),
        r@.len() == 32,
{
    sha2::Sha256::digest(data).to_vec()
}

/// `hex::encode`: lowercase hexadecimal, two characters per input byte.
#[verifier::external_body]
pub(crate) fn hex_encode(data: &[u8]) -> (r: String)
    ensures
        r@ == hex_lower(data@),
{
    hex::encode(data)
}

/// Length of the unpadded base64 text of `n` bytes: four characters per
/// three bytes, and two or three for a last one or two.
pub open spec fn base64_unpadded_len(n: nat) -> nat {
    (n / 3) * 4 + if n % 3 == 0 {
        0
    } else {
        n % 3 + 1
    }
}

/// A six-bit value gives a character of the alphabet.
pub proof fn lemma_b64url_char(v: int)
    requires
        0 <= v < 64,
    ensures
        is_base64url_char(b64url_char(v)),
{
}

/// The text has `base64_unpadded_len` characters, all of the alphabet.
pub proof fn lemma_base64url_text(data: Seq<u8>)
    ensures
        base64url_text(data).len() == base64_unpadded_len(data.len()),
        forall|i: int|
            0 <= i < base64url_text(data).len() ==> is_base64url_char(#[trigger] base64url_text(data)[i]),
    decreases data.len(),
{
    let t = base64url_text(data);
    if data.len() == 0 {
    } else if data.len() <= 2 {
        lemma_b64url_char((data[0] as int) / 4);
        lemma_b64url_char(((data[0] as int) % 4) * 16);
        if data.len() == 2 {
            lemma_b64url_char(((data[0] as int) % 4) * 16 + (data[1] as int) / 16);
            lemma_b64url_char(((data[1] as int) % 16) * 4);
        }
    } else {
        let rest = data.subrange(3, data.len() as int);
        lemma_base64url_text(rest);
        lemma_b64url_char((data[0] as int) / 4);
        lemma_b64url_char(((data[0] as int) % 4) * 16 + (data[1] as int) / 16);
        lemma_b64url_char(((data[1] as int) % 16) * 4 + (data[2] as int) / 64);
        lemma_b64url_char((data[2] as int) % 64);
        let n = data.len() as int;
        assert(base64_unpadded_len(rest.len()) + 4 == base64_unpadded_len(data.len())) by {
            assert(rest.len() == n - 3);
            assert((n - 3) / 3 == n / 3 - 1) by (nonlinear_arith)
                requires
                    n >= 3,
            ;
            assert((n - 3) % 3 == n % 3) by (nonlinear_arith)
                requires
                    n >= 3,
            ;
        }
        let head = seq![
            b64url_char((data[0] as int) / 4),
            b64url_char(((data[0] as int) % 4) * 16 + (data[1] as int) / 16),
            b64url_char(((data[1] as int) % 16) * 4 + (data[2] as int) / 64),
            b64url_char((data[2] as int) % 64),
        ];
        assert(t == head + base64url_text(rest));
        assert forall|i: int| 0 <= i < t.len() implies is_base64url_char(#[trigger] t[i]) by {
            if i >= 4 {
                assert(t[i] == base64url_text(rest)[i - 4]);
            }
        }
    }
}

/// `URL_SAFE_NO_PAD.encode`: base64url without padding (see
/// `base64url_text`); decoding the text with the same engine gives `data`
/// back.
#[verifier::external_body]
pub(crate) fn base64url_encode(data: &[u8]) -> (r: String)
    requires
        data@.len() <= usize::MAX / 2,
    ensures
        r@ == base64url_text(data@),
        base64url_bytes(encode_utf8(r@)) == Some(data@),
{
    base64::engine::general_purpose::URL_SAFE_NO_PAD.encode(data)
}

/// `URL_SAFE_NO_PAD.decode`: the decoded bytes, `None` on a decode error.
#[verifier::external_body]
pub(crate) fn base64url_decode(text: &[u8]) -> (r: Option<Vec<u8>>)
    ensures
        match r {
            Some(v) => base64url_bytes(text@) == Some(v@),
            None => base64url_bytes(text@) is None,
        },
{
    base64::engine::general_purpose::URL_SAFE_NO_PAD.decode(text).ok()
}

/// `String::from_utf8`: the text that `bytes` encode, when they are UTF-8.
#[verifier::external_body]
pub(crate) fn string_from_utf8(bytes: Vec<u8>) -> (r: Option<String>)
    ensures
        r is Some <==> valid_utf8(bytes@),
        r matches Some(s) ==> s@ == decode_utf8(bytes@),
{
    String::from_utf8(bytes).ok()
}

/// `core::str::from_utf8`: the text that `bytes` encode, when they are UTF-8.
#[verifier::external_body]
pub(crate) fn str_from_utf8(bytes: &[u8]) -> (r: Option<&str>)
    ensures
        r is Some <==> valid_utf8(bytes@),
        r matches Some(s) ==> s.spec_bytes() == bytes@,
{
    core::str::from_utf8(bytes).ok()
}

/// `<[u8] as subtle::ConstantTimeEq>::ct_eq`, turned into a `bool`: equal
/// lengths and equal bytes.
#[verifier::external_body]
pub(crate) fn ct_eq_bytes(a: &[u8], b: &[u8]) -> (r: bool)
    ensures
        r == (a@ == b@),
{
    a.ct_eq(b).into()
}

/// `<u64 as subtle::ConstantTimeEq>::ct_eq`, turned into a `bool`.
#[verifier::external_body]
pub(crate) fn ct_eq_u64(a: u64, b: u64) -> (r: bool)
    ensures
        r == (a == b),
{
    a.ct_eq(&b).into()
}

/// `OsRng.gen_range(0..bound)`: an index drawn from the operating system's
/// random source; nothing is promised of it beyond lying below `bound`.
#[verifier::external_body]
pub(crate) fn random_index(bound: usize) -> (r: usize)
    requires
        bound > 0,
    ensures
        r < bound,
{
    rand::rngs::OsRng.gen_range(0..bound)
}

/// `OsRng.fill_bytes` on a 32-byte buffer: 32 bytes from the operating
/// system's random source.
#[verifier::external_body]
pub(crate) fn random_bytes_32() -> (r: Vec<u8>)
    ensures
        r@.len() == 32,
{
    let mut buf = [0u8; 32];
    rand::rngs::OsRng.fill_bytes(&mut buf);
    buf.to_vec()
}

/// A seeded or other standard random generator, carried through unread.
#[verifier::external_type_specification]
#[verifier::external_body]
pub struct ExStdRng(rand::rngs::StdRng);

/// `rng.fill_bytes` on a 32-byte buffer: the next 32 bytes of `rng`; nothing
/// is promised of their values.
#[verifier::external_body]
pub(crate) fn random_bytes_32_from(rng: &mut rand::rngs::StdRng) -> (r: Vec<u8>)
    ensures
        r@.len() == 32,
{
    let mut buf = [0u8; 32];
    rng.fill_bytes(&mut buf);
    buf.to_vec()
}


/// `rng.gen_range(0..bound)`: the next index drawn from `rng`; nothing is
/// promised of it beyond lying below `bound`.
#[verifier::external_body]
pub(crate) fn random_index_from(rng: &mut rand::rngs::StdRng, bound: usize) -> (r: usize)
    requires
        bound > 0,
    ensures
        r < bound,
{
    rng.gen_range(0..bound)
}

} // verus!
