//! Pairing codes: eight characters from a 31-letter alphabet without the
//! look-alikes `0 O 1 I L`, compared in constant time.

use vstd::prelude::*;
use vstd::string::StringSliceAdditionalSpecFns;
use vstd::utf8::*;
use crate::codec::{ct_eq_bytes, ct_eq_u64, random_index, random_index_from, str_from_utf8};

verus! {

/// Length of a pairing code.
pub const PAIRING_CODE_LEN: usize = 8;

/// The pairing-code alphabet, in index order.
pub const PAIRING_CODE_ALPHABET: [u8; 31] = [
    65, 66, 67, 68, 69, 70, 71, 72, 74, 75, 77, 78, 80, 81, 82, 83, 84, 85, 86, 87, 88, 89, 90, 50,
    51, 52, 53, 54, 55, 56, 57,
];

/// A byte of the alphabet: `A-H`, `J K M N`, `P-Z`, `2-9`.
pub open spec fn in_alphabet(b: u8) -> bool {
    ||| 65 <= b <= 72
    ||| b == 74
    ||| b == 75
    ||| b == 77
    ||| b == 78
    ||| 80 <= b <= 90
    ||| 50 <= b <= 57
}

/// The alphabet byte at index `i` (`0 <= i < 31`), in the order of
/// [`PAIRING_CODE_ALPHABET`].
pub open spec fn alphabet_at(i: int) -> u8 {
    if i < 8 {
        (65 + i) as u8
    } else if i == 8 {
        74
    } else if i == 9 {
        75
    } else if i == 10 {
        77
    } else if i == 11 {
        78
    } else if i < 23 {
        (80 + (i - 12)) as u8
    } else {
        (50 + (i - 23)) as u8
    }
}

/// A well-formed code: exactly eight alphabet bytes.
pub open spec fn valid_code(s: Seq<u8>) -> bool {
    &&& s.len() == PAIRING_CODE_LEN
    &&& forall|i: int| 0 <= i < s.len() ==> in_alphabet(#[trigger] s[i])
}

/// Whether `b` is an alphabet byte.
pub fn is_alphabet_byte(b: u8) -> (r: bool)
    ensures
        r == in_alphabet(b),
{
    (65 <= b && b <= 72) || b == 74 || b == 75 || b == 77 || b == 78 || (80 <= b && b <= 90) || (50
        <= b && b <= 57)
}

/// The alphabet byte at index `i`.
pub fn alphabet_byte(i: usize) -> (b: u8)
    requires
        i < 31,
    ensures
        b == alphabet_at(i as int),
        in_alphabet(b),
{
    if i < 8 {
        65 + i as u8
    } else if i == 8 {
        74
    } else if i == 9 {
        75
    } else if i == 10 {
        77
    } else if i == 11 {
        78
    } else if i < 23 {
        80 + (i - 12) as u8
    } else {
        50 + (i - 23) as u8
    }
}

/// A pairing code: eight bytes, all from the alphabet.
#[derive(Clone, Copy, PartialEq, Eq)]
pub struct PairingCode {
    bytes: [u8; 8],
}

impl View for PairingCode {
    type V = Seq<u8>;

    /// The code's bytes.
    closed spec fn view(&self) -> Seq<u8> {
        self.bytes@
    }
}

impl PairingCode {
    #[verifier::type_invariant]
    closed spec fn inv(self) -> bool {
        valid_code(self.bytes@)
    }

    /// Every code is well formed.
    pub fn check_valid(&self)
        ensures
            valid_code(self@),
    {
        proof {
            use_type_invariant(self);
        }
    }

    /// Builds a code from bytes already known to be valid.
    pub fn from_validated_bytes(bytes: [u8; 8]) -> (c: PairingCode)
        requires
            valid_code(bytes@),
        ensures
            c@ == bytes@,
    {
        PairingCode { bytes }
    }

    /// The code's bytes.
    pub fn as_bytes(&self) -> (b: &[u8; 8])
        ensures
            b@ == self@,
    {
        &self.bytes
    }

    /// The code as text; its UTF-8 bytes are the code's bytes.
    pub fn as_str(&self) -> (s: &str)
        ensures
            s.spec_bytes() == self@,
    {
        proof {
            use_type_invariant(self);
            lemma_ascii_valid_utf8(self.bytes@);
        }
        match str_from_utf8(self.bytes.as_slice()) {
            Some(s) => s,
            None => {
                proof {
                    assert(false);
                }
                ""
            },
        }
    }

    /// The code as an owned string; its UTF-8 bytes are the code's bytes.
    pub fn into_string(self) -> (s: String)
        ensures
            encode_utf8(s@) == self@,
    {
        let r = self.as_str();
        r.to_owned()
    }
}

/// Bytes below 128 always form valid UTF-8.
proof fn lemma_ascii_valid_utf8(s: Seq<u8>)
    requires
        forall|i: int| 0 <= i < s.len() ==> #[trigger] s[i] < 128,
    ensures
        valid_utf8(s),
    decreases s.len(),
{
    if s.len() > 0 {
        let b0 = s[0];
        assert(b0 < 128);
        assert(is_leading_byte_width_1(b0)) by (bit_vector)
            requires
                b0 < 128,
        ;
        let t = s.subrange(1, s.len() as int);
        assert forall|i: int| 0 <= i < t.len() implies #[trigger] t[i] < 128 by {
            assert(t[i] == s[i + 1]);
        }
        lemma_ascii_valid_utf8(t);
        assert(pop_first_scalar(s) =~= t);
    }
}

/// Draws a fresh code from the operating system's random source, each
/// character uniformly from the alphabet.
pub fn generate_pairing_code() -> (c: PairingCode)
    ensures
        valid_code(c@),
{
    let mut buf: [u8; 8] = [0u8; 8];
    let mut i: usize = 0;
    while i < PAIRING_CODE_LEN
        invariant
            i <= 8,
            forall|k: int| 0 <= k < i ==> in_alphabet(#[trigger] buf@[k]),
        decreases 8 - i,
    {
        let idx = random_index(31);
        buf[i] = alphabet_byte(idx);
        i = i + 1;
    }
    PairingCode { bytes: buf }
}

/// The code whose `k`-th character is the alphabet entry `indices[k]`.
pub fn pairing_code_from_indices(indices: [usize; 8]) -> (c: PairingCode)
    requires
        forall|k: int| 0 <= k < 8 ==> #[trigger] indices@[k] < 31,
    ensures
        forall|k: int| 0 <= k < 8 ==> #[trigger] c@[k] == alphabet_at(indices@[k] as int),
{
    let mut buf: [u8; 8] = [0u8; 8];
    let mut i: usize = 0;
    while i < PAIRING_CODE_LEN
        invariant
            i <= 8,
            forall|k: int| 0 <= k < 8 ==> #[trigger] indices@[k] < 31,
            forall|k: int| 0 <= k < i ==> #[trigger] buf@[k] == alphabet_at(indices@[k] as int),
            forall|k: int| 0 <= k < i ==> in_alphabet(#[trigger] buf@[k]),
        decreases 8 - i,
    {
        buf[i] = alphabet_byte(indices[i]);
        i = i + 1;
    }
    PairingCode { bytes: buf }
}

/// Constant-time check that `candidate` is exactly the current code: every
/// byte position is compared whatever the length of the candidate.
pub fn verify_pairing_code(current: &PairingCode, candidate: &str) -> (r: bool)
    ensures
        r == (candidate.spec_bytes() == current@),
{
    proof {
        use_type_invariant(current);
    }
    let cb = candidate.as_bytes();
    let mut buf: [u8; 8] = [0u8; 8];
    let copy_len = if cb.len() < PAIRING_CODE_LEN { cb.len() } else { PAIRING_CODE_LEN };
    let mut i: usize = 0;
    while i < copy_len
        invariant
            copy_len <= 8,
            copy_len <= cb@.len(),
            i <= copy_len,
            forall|k: int| 0 <= k < i ==> buf@[k] == cb@[k],
        decreases copy_len - i,
    {
        buf[i] = cb[i];
        i = i + 1;
    }
    let bytes_eq = ct_eq_bytes(buf.as_slice(), current.as_bytes().as_slice());
    let len_eq = ct_eq_u64(cb.len() as u64, PAIRING_CODE_LEN as u64);
    proof {
        if cb@.len() == 8 {
            assert(buf@ =~= cb@);
        }
    }
    // Combined without short-circuiting, so the length check adds no branch.
    let both = (bytes_eq as u8) & (len_eq as u8);
    assert(((bytes_eq as u8) & (len_eq as u8) == 1) == (bytes_eq && len_eq)) by (bit_vector);
    both == 1
}

/// Parses text into a code: `Some` exactly when it is eight alphabet bytes.
pub fn parse_pairing_code(input: &str) -> (r: Option<PairingCode>)
    ensures
        r is Some <==> valid_code(input.spec_bytes()),
        r matches Some(c) ==> c@ == input.spec_bytes(),
{
    let b = input.as_bytes();
    if b.len() != PAIRING_CODE_LEN {
        return None;
    }
    let mut buf: [u8; 8] = [0u8; 8];
    let mut i: usize = 0;
    while i < PAIRING_CODE_LEN
        invariant
            b@ == input.spec_bytes(),
            b@.len() == 8,
            i <= 8,
            forall|k: int| 0 <= k < i ==> buf@[k] == b@[k] && in_alphabet(#[trigger] b@[k]),
        decreases 8 - i,
    {
        if !is_alphabet_byte(b[i]) {
            assert(!in_alphabet(b@[i as int]));
            assert(!valid_code(b@));
            return None;
        }
        buf[i] = b[i];
        i = i + 1;
    }
    assert(buf@ =~= b@);
    Some(PairingCode::from_validated_bytes(buf))
}


/// Draws a code from `rng`, each character an alphabet entry chosen by the
/// generator (so a seeded generator gives the same code again).
pub fn generate_pairing_code_with_rng(rng: &mut rand::rngs::StdRng) -> (c: PairingCode)
    ensures
        valid_code(c@),
{
    let mut buf: [u8; 8] = [0u8; 8];
    let mut i: usize = 0;
    while i < PAIRING_CODE_LEN
        invariant
            i <= 8,
            forall|k: int| 0 <= k < i ==> in_alphabet(#[trigger] buf@[k]),
        decreases 8 - i,
    {
        let idx = random_index_from(rng, 31);
        buf[i] = alphabet_byte(idx);
        i = i + 1;
    }
    PairingCode { bytes: buf }
}

} // verus!
