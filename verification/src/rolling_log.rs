//! Bounded in-memory log: line truncation, secret redaction and a byte-capped
//! first-in-first-out buffer.

use std::collections::VecDeque;
use vstd::prelude::*;
use vstd::utf8::*;
use vstd::string::StringExecFns;
use vstd::string::StrSliceExecFns;
use vstd::string::StringSliceAdditionalSpecFns;
use crate::text::{byte_len, decimal, lemma_encode_utf8_ascii_len, lemma_encode_utf8_concat, push_char, push_decimal};
use crate::codec::{hex_encode, hex_lower, sha256, sha256_digest};

verus! {

broadcast use {encode_utf8_valid_utf8, encode_utf8_decode_utf8};

/// Largest number of bytes one stored line may take.
pub const MAX_LINE_BYTES: usize = 4096;

/// Largest number of bytes the whole buffer may take, counting one newline
/// per line.
pub const MAX_TOTAL_BYTES: usize = 10485760;

/// Suffix appended to a line that was cut short.
pub const TRUNCATED_SUFFIX: &'static str = "\u{2026}<truncated>";

/// Number of UTF-8 bytes of a line.
pub open spec fn line_bytes(line: Seq<char>) -> nat {
    encode_utf8(line).len()
}

/// The largest character boundary of `bytes` that is at most `n` (0 is
/// always one).
pub open spec fn boundary_at_or_below(bytes: Seq<u8>, n: int) -> int
    decreases n,
{
    if n <= 0 {
        0
    } else if is_char_boundary(bytes, n) {
        n
    } else {
        boundary_at_or_below(bytes, n - 1)
    }
}

/// Where an over-long line is cut: the last character boundary that still
/// leaves room for the suffix.
pub open spec fn cut_point(bytes: Seq<u8>) -> int {
    boundary_at_or_below(bytes, MAX_LINE_BYTES - line_bytes(TRUNCATED_SUFFIX@))
}

/// A line as it is stored: unchanged when it fits, otherwise its longest
/// prefix (on a character boundary) that leaves room for the suffix, followed
/// by the suffix.
pub open spec fn truncated(line: Seq<char>) -> Seq<char> {
    if line_bytes(line) <= MAX_LINE_BYTES {
        line
    } else {
        decode_utf8(encode_utf8(line).subrange(0, cut_point(encode_utf8(line))))
            + TRUNCATED_SUFFIX@
    }
}

pub proof fn lemma_suffix_len()
    ensures
        line_bytes(TRUNCATED_SUFFIX@) == 14,
{
    reveal_strlit("\u{2026}<truncated>");
    let s = TRUNCATED_SUFFIX@;
    assert(s.len() == 12);
    assert(s[0] as u32 == 0x2026);
    assert(encode_scalar(s[0] as u32).len() == 3);
    let rest = s.drop_first();
    assert forall|i: int| 0 <= i < rest.len() implies (#[trigger] rest[i]) as u32 <= 0x7F by {
        assert(rest[i] == s[i + 1]);
    }
    lemma_encode_utf8_ascii_len(rest);
}

proof fn lemma_boundary_at_or_below(bytes: Seq<u8>, n: int)
    requires
        valid_utf8(bytes),
        0 <= n <= bytes.len(),
    ensures
        0 <= boundary_at_or_below(bytes, n) <= n,
        is_char_boundary(bytes, boundary_at_or_below(bytes, n)),
    decreases n,
{
    if n > 0 && !is_char_boundary(bytes, n) {
        lemma_boundary_at_or_below(bytes, n - 1);
    }
}

/// Cuts a line down to at most `MAX_LINE_BYTES` bytes on a character
/// boundary, marking a cut with `TRUNCATED_SUFFIX`.
pub fn truncate_line(line: &str) -> (out: String)
    ensures
        out@ == truncated(line@),
        line_bytes(out@) <= MAX_LINE_BYTES,
        line_bytes(line@) > MAX_LINE_BYTES ==> encode_utf8(out@) == line.spec_bytes().subrange(
            0,
            cut_point(line.spec_bytes()),
        ) + encode_utf8(TRUNCATED_SUFFIX@),
{
    proof {
        lemma_suffix_len();
    }
    if byte_len(line) <= MAX_LINE_BYTES {
        return String::from_str(line);
    }
    let target: usize = MAX_LINE_BYTES - byte_len(TRUNCATED_SUFFIX);
    let ghost bytes = line.spec_bytes();
    let mut idx: usize = target;
    while !line.is_char_boundary(idx)
        invariant
            bytes == line.spec_bytes(),
            valid_utf8(bytes),
            target == MAX_LINE_BYTES - 14,
            bytes.len() > MAX_LINE_BYTES,
            idx <= target,
            boundary_at_or_below(bytes, idx as int) == boundary_at_or_below(bytes, target as int),
        decreases idx,
    {
        idx = idx - 1;
    }
    assert(boundary_at_or_below(bytes, idx as int) == idx);
    let (head, _) = line.split_at(idx);
    let mut out = String::from_str(head);
    out.append(TRUNCATED_SUFFIX);
    proof {
        lemma_encode_utf8_concat(head@, TRUNCATED_SUFFIX@);
        valid_utf8_split(bytes, idx as int);
        assert(decode_utf8(encode_utf8(head@)) == head@);
    }
    out
}

/// The first eight bytes of the SHA-256 digest of `s`, in lowercase hex.
pub open spec fn summary_of(s: Seq<char>) -> Seq<char> {
    hex_lower(sha256(encode_utf8(s)).subrange(0, 8))
}

/// `len=<character count> sha8=<summary>`: what a log line may say of a
/// secret.
pub open spec fn redacted(s: Seq<char>) -> Seq<char> {
    seq!['l', 'e', 'n', '='] + decimal(s.len()) + seq![' ', 's', 'h', 'a', '8', '=']
        + summary_of(s)
}

/// Sixteen lowercase hex digits naming `s` by the first eight bytes of its
/// SHA-256 digest.
pub fn secret_summary(s: &str) -> (r: String)
    ensures
        r@ == summary_of(s@),
{
    let digest = sha256_digest(s.as_bytes());
    let mut head: Vec<u8> = Vec::new();
    let mut i: usize = 0;
    while i < 8
        invariant
            digest@ == sha256(s.spec_bytes()),
            digest@.len() == 32,
            i <= 8,
            head@ == digest@.subrange(0, i as int),
        decreases 8 - i,
    {
        head.push(digest[i]);
        i = i + 1;
    }
    hex_encode(head.as_slice())
}

/// A secret folded into text that is safe to log: its length in characters
/// and its summary, never the secret itself.
pub fn redact_secret(s: &str) -> (r: String)
    ensures
        r@ == redacted(s@),
{
    let mut out = String::from_str("len=");
    let n: usize = s.unicode_len();
    push_decimal(&mut out, n as u64);
    out.append(" sha8=");
    let summary = secret_summary(s);
    out.append(summary.as_str());
    proof {
        reveal_strlit("len=");
        reveal_strlit(" sha8=");
    }
    out
}

/// Bytes the lines take when each is followed by a newline.
pub open spec fn stored_bytes(lines: Seq<Seq<char>>) -> nat
    decreases lines.len(),
{
    if lines.len() == 0 {
        0
    } else {
        line_bytes(lines[0]) + 1 + stored_bytes(lines.drop_first())
    }
}

/// How many of the oldest lines must go so that `incoming` more bytes fit
/// under `MAX_TOTAL_BYTES` (all of them when even that is not enough).
pub open spec fn evicted(lines: Seq<Seq<char>>, incoming: nat) -> nat
    decreases lines.len(),
{
    if lines.len() == 0 || stored_bytes(lines) + incoming <= MAX_TOTAL_BYTES {
        0
    } else {
        1 + evicted(lines.drop_first(), incoming)
    }
}

/// The lines after `line` is pushed: the fewest oldest lines are dropped to
/// make room, and the truncated line is appended.
pub open spec fn after_push(lines: Seq<Seq<char>>, line: Seq<char>) -> Seq<Seq<char>> {
    let t = truncated(line);
    lines.skip(evicted(lines, line_bytes(t) + 1) as int).push(t)
}

pub proof fn lemma_stored_bytes_push(lines: Seq<Seq<char>>, x: Seq<char>)
    ensures
        stored_bytes(lines.push(x)) == stored_bytes(lines) + line_bytes(x) + 1,
    decreases lines.len(),
{
    if lines.len() > 0 {
        assert(lines.push(x).drop_first() =~= lines.drop_first().push(x));
        assert(lines.push(x)[0] == lines[0]);
        lemma_stored_bytes_push(lines.drop_first(), x);
    } else {
        assert(lines.push(x).drop_first() =~= Seq::<Seq<char>>::empty());
        assert(lines.push(x)[0] == x);
        assert(stored_bytes(Seq::<Seq<char>>::empty()) == 0);
    }
}

proof fn lemma_skip_step(lines: Seq<Seq<char>>, k: int)
    requires
        0 <= k < lines.len(),
    ensures
        lines.skip(k).drop_first() == lines.skip(k + 1),
        lines.skip(k)[0] == lines[k],
        stored_bytes(lines.skip(k)) == line_bytes(lines[k]) + 1 + stored_bytes(lines.skip(k + 1)),
{
    assert(lines.skip(k).drop_first() =~= lines.skip(k + 1));
}

proof fn lemma_evicted_le(lines: Seq<Seq<char>>, incoming: nat)
    ensures
        evicted(lines, incoming) <= lines.len(),
    decreases lines.len(),
{
    if lines.len() > 0 && stored_bytes(lines) + incoming > MAX_TOTAL_BYTES {
        lemma_evicted_le(lines.drop_first(), incoming);
    }
}

proof fn lemma_evicted_skip(lines: Seq<Seq<char>>, incoming: nat, k: int)
    requires
        0 <= k <= lines.len(),
        evicted(lines, incoming) >= k,
    ensures
        evicted(lines, incoming) == k + evicted(lines.skip(k), incoming),
    decreases k,
{
    if k > 0 {
        assert(lines.len() > 0);
        assert(stored_bytes(lines) + incoming > MAX_TOTAL_BYTES);
        assert(lines.drop_first().skip(k - 1) =~= lines.skip(k));
        lemma_evicted_skip(lines.drop_first(), incoming, k - 1);
    } else {
        assert(lines.skip(0) =~= lines);
    }
}

/// A log held in memory: lines oldest first, each at most `MAX_LINE_BYTES`
/// bytes, together at most `MAX_TOTAL_BYTES` bytes with one newline each.
#[derive(Debug)]
pub struct RollingBuffer {
    lines: VecDeque<String>,
    total_bytes: usize,
}

impl View for RollingBuffer {
    type V = Seq<Seq<char>>;

    closed spec fn view(&self) -> Seq<Seq<char>> {
        self.lines@.map_values(|l: String| l@)
    }
}

impl RollingBuffer {
    /// The byte count kept beside the lines is theirs, and both limits hold.
    pub closed spec fn wf(&self) -> bool {
        &&& self.total_bytes == stored_bytes(self@)
        &&& self.total_bytes <= MAX_TOTAL_BYTES
        &&& forall|i: int| 0 <= i < self@.len() ==> line_bytes(#[trigger] self@[i]) <= MAX_LINE_BYTES
    }

    /// An empty buffer.
    pub fn new() -> (r: Self)
        ensures
            r.wf(),
            r@ == Seq::<Seq<char>>::empty(),
    {
        let r = RollingBuffer { lines: VecDeque::new(), total_bytes: 0 };
        assert(r@ =~= Seq::<Seq<char>>::empty());
        r
    }

    /// Appends `line`, truncated, after dropping the fewest oldest lines that
    /// make room for it.
    pub fn push_line(&mut self, line: &str)
        requires
            old(self).wf(),
        ensures
            final(self).wf(),
            final(self)@ == after_push(old(self)@, line@),
    {
        let truncated_line = truncate_line(line);
        let bytes_to_add: usize = byte_len(truncated_line.as_str()) + 1;
        let ghost old_view = self@;
        let ghost incoming = bytes_to_add as nat;
        let ghost mut popped: int = 0;
        proof {
            lemma_evicted_le(old_view, incoming);
            assert(old_view.skip(0) =~= old_view);
        }
        while self.total_bytes + bytes_to_add > MAX_TOTAL_BYTES && self.lines.len() > 0
            invariant
                self.wf(),
                bytes_to_add <= MAX_LINE_BYTES + 1,
                0 <= popped <= old_view.len(),
                self@ == old_view.skip(popped),
                evicted(old_view, incoming) == popped + evicted(self@, incoming),
                incoming == bytes_to_add,
            decreases self.lines@.len(),
        {
            let ghost before = self@;
            let front = self.lines.pop_front();
            proof {
                assert(self.lines@.map_values(|l: String| l@) =~= before.drop_first());
                assert(before.drop_first() =~= old_view.skip(popped + 1));
            }
            match front {
                Some(f) => {
                    assert(f@ == before[0]);
                    let n: usize = byte_len(f.as_str());
                    self.total_bytes = self.total_bytes - (n + 1);
                },
                None => {},
            }
            proof {
                popped = popped + 1;
            }
        }
        let ghost kept = self@;
        self.total_bytes = self.total_bytes + bytes_to_add;
        self.lines.push_back(truncated_line);
        proof {
            assert(evicted(kept, incoming) == 0);
            lemma_stored_bytes_push(kept, truncated(line@));
            assert(self@ =~= kept.push(truncated(line@)));
        }
    }

    /// Every line, oldest first.
    pub fn lines(&self) -> (r: Vec<&str>)
        ensures
            r@.len() == self@.len(),
            forall|i: int| 0 <= i < r@.len() ==> (#[trigger] r@[i])@ == self@[i],
    {
        let mut r: Vec<&str> = Vec::new();
        let mut i: usize = 0;
        while i < self.lines.len()
            invariant
                i <= self@.len(),
                self@.len() == self.lines@.len(),
                r@.len() == i,
                forall|j: int| 0 <= j < i ==> (#[trigger] r@[j])@ == self@[j],
            decreases self.lines@.len() - i,
        {
            r.push(self.lines[i].as_str());
            i = i + 1;
        }
        r
    }

    /// Bytes held, one newline per line included.
    pub fn total_bytes(&self) -> (r: usize)
        requires
            self.wf(),
        ensures
            r == stored_bytes(self@),
    {
        self.total_bytes
    }

    /// A copy of every line, oldest first.
    pub fn snapshot(&self) -> (r: Vec<String>)
        ensures
            r@.len() == self@.len(),
            forall|i: int| 0 <= i < r@.len() ==> (#[trigger] r@[i])@ == self@[i],
    {
        let mut r: Vec<String> = Vec::new();
        let mut i: usize = 0;
        while i < self.lines.len()
            invariant
                i <= self@.len(),
                self@.len() == self.lines@.len(),
                r@.len() == i,
                forall|j: int| 0 <= j < i ==> (#[trigger] r@[j])@ == self@[j],
            decreases self.lines@.len() - i,
        {
            r.push(self.lines[i].clone());
            i = i + 1;
        }
        r
    }
}

impl Default for RollingBuffer {
    fn default() -> (r: Self)
        ensures
            r.wf(),
            r@ == Seq::<Seq<char>>::empty(),
    {
        RollingBuffer::new()
    }
}

/// Whatever was pushed, a buffer holds no line over `MAX_LINE_BYTES` bytes
/// and no more than `MAX_TOTAL_BYTES` bytes in all.
pub proof fn lemma_buffer_within_limits(b: &RollingBuffer)
    requires
        b.wf(),
    ensures
        stored_bytes(b@) <= MAX_TOTAL_BYTES,
        forall|i: int| 0 <= i < b@.len() ==> line_bytes(#[trigger] b@[i]) <= MAX_LINE_BYTES,
{
}

/// A line that fits in the room left is appended as it is, and nothing is
/// dropped.
pub proof fn lemma_push_with_room_keeps_all(lines: Seq<Seq<char>>, line: Seq<char>)
    requires
        line_bytes(line) <= MAX_LINE_BYTES,
        stored_bytes(lines) + line_bytes(line) + 1 <= MAX_TOTAL_BYTES,
    ensures
        after_push(lines, line) == lines.push(line),
{
    assert(lines.skip(0) =~= lines);
}

} // verus!
