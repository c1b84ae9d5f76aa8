//! The newest part of the log that fits a byte budget, for diagnostics.

use vstd::prelude::*;
use vstd::utf8::*;
use vstd::string::StringExecFns;
use crate::rolling_log::{line_bytes, stored_bytes, RollingBuffer, lemma_stored_bytes_push};
use crate::text::{byte_len, decimal, lemma_encode_utf8_ascii_len, lemma_encode_utf8_concat, push_char, push_decimal, push_str};

verus! {

/// Most log bytes a diagnostics bundle carries.
pub const MAX_DIAGNOSTICS_LOG_BYTES: usize = 1048576;

/// The lines joined with `'\n'` between them.
pub open spec fn joined(lines: Seq<Seq<char>>) -> Seq<char>
    decreases lines.len(),
{
    if lines.len() == 0 {
        Seq::empty()
    } else if lines.len() == 1 {
        lines[0]
    } else {
        joined(lines.drop_last()) + seq!['\n'] + lines.last()
    }
}

/// Index of the oldest line kept: the longest run of newest lines whose
/// bytes, one newline each, fit in `max_bytes`.
pub open spec fn tail_start(lines: Seq<Seq<char>>, max_bytes: nat) -> nat
    decreases lines.len(),
{
    if stored_bytes(lines) <= max_bytes || lines.len() == 0 {
        0
    } else {
        1 + tail_start(lines.drop_first(), max_bytes)
    }
}

proof fn lemma_skip_step(lines: Seq<Seq<char>>, k: int)
    requires
        0 <= k < lines.len(),
    ensures
        stored_bytes(lines.skip(k)) == line_bytes(lines[k]) + 1 + stored_bytes(lines.skip(k + 1)),
{
    assert(lines.skip(k).drop_first() =~= lines.skip((k + 1) as int));
    assert(lines.skip(k)[0] == lines[k]);
}

proof fn lemma_skip_monotone(lines: Seq<Seq<char>>, j: int, k: int)
    requires
        0 <= j <= k <= lines.len(),
    ensures
        stored_bytes(lines.skip(k)) <= stored_bytes(lines.skip(j)),
    decreases k - j,
{
    if j < k {
        lemma_skip_step(lines, j);
        lemma_skip_monotone(lines, j + 1, k);
    }
}

proof fn lemma_tail_start_at(lines: Seq<Seq<char>>, max_bytes: nat, k: int)
    requires
        0 <= k <= lines.len(),
        stored_bytes(lines.skip(k)) <= max_bytes,
        k > 0 ==> stored_bytes(lines.skip(k - 1)) > max_bytes,
    ensures
        tail_start(lines, max_bytes) == k,
    decreases k,
{
    assert(lines.skip(0) =~= lines);
    if k > 0 {
        lemma_skip_monotone(lines, 0, k - 1);
        assert(lines.drop_first().skip(k - 1) =~= lines.skip(k));
        if k > 1 {
            assert(lines.drop_first().skip(k - 2) =~= lines.skip(k - 1));
        }
        lemma_tail_start_at(lines.drop_first(), max_bytes, k - 1);
    }
}

proof fn lemma_joined_bytes(lines: Seq<Seq<char>>)
    requires
        lines.len() > 0,
    ensures
        line_bytes(joined(lines)) + 1 == stored_bytes(lines),
    decreases lines.len(),
{
    if lines.len() == 1 {
        assert(lines =~= Seq::<Seq<char>>::empty().push(lines[0]));
        lemma_stored_bytes_push(Seq::<Seq<char>>::empty(), lines[0]);
    } else {
        let init = lines.drop_last();
        lemma_joined_bytes(init);
        assert(lines =~= init.push(lines.last()));
        lemma_stored_bytes_push(init, lines.last());
        lemma_encode_utf8_concat(joined(init), seq!['\n']);
        lemma_encode_utf8_concat(joined(init) + seq!['\n'], lines.last());
        assert(encode_utf8(seq!['\n']).len() == 1) by {
            assert(seq!['\n'][0] as u32 == 10);
            lemma_encode_utf8_ascii_len(seq!['\n']);
        }
    }
}

pub(crate) fn tail_start_index(lines: &Vec<String>, max_bytes: usize, Ghost(view): Ghost<Seq<Seq<char>>>) -> (r: (usize, usize))
    requires
        lines@.len() == view.len(),
        forall|i: int| 0 <= i < view.len() ==> (#[trigger] lines@[i])@ == view[i],
        forall|i: int| 0 <= i < view.len() ==> line_bytes(#[trigger] view[i]) <= 4096,
    ensures
        r.0 == tail_start(view, max_bytes as nat),
        r.1 == stored_bytes(view.skip(r.0 as int)),
{
    let mut total: usize = 0;
    let mut i: usize = lines.len();
    proof {
        assert(view.skip(view.len() as int) =~= Seq::<Seq<char>>::empty());
    }
    while i > 0
        invariant
            lines@.len() == view.len(),
            forall|j: int| 0 <= j < view.len() ==> (#[trigger] lines@[j])@ == view[j],
            forall|j: int| 0 <= j < view.len() ==> line_bytes(#[trigger] view[j]) <= 4096,
            i <= view.len(),
            total == stored_bytes(view.skip(i as int)),
            total <= max_bytes,
        decreases i,
    {
        let add: usize = byte_len(lines[i - 1].as_str()) + 1;
        proof {
            assert(lines@[i - 1]@ == view[i - 1]);
            lemma_skip_step(view, i - 1);
        }
        if add > max_bytes - total {
            proof {
                lemma_tail_start_at(view, max_bytes as nat, i as int);
            }
            return (i, total);
        }
        total = total + add;
        i = i - 1;
    }
    proof {
        lemma_tail_start_at(view, max_bytes as nat, 0);
    }
    (0, total)
}

/// The newest lines of `buffer` whose bytes, one newline each, fit in
/// `max_bytes`, joined with newlines.
pub fn tail_log(buffer: &RollingBuffer, max_bytes: usize) -> (r: String)
    requires
        buffer.wf(),
    ensures
        r@ == joined(buffer@.skip(tail_start(buffer@, max_bytes as nat) as int)),
        line_bytes(r@) <= max_bytes,
{
    let snapshot = buffer.snapshot();
    proof {
        crate::rolling_log::lemma_buffer_within_limits(buffer);
    }
    let (keep, _) = tail_start_index(&snapshot, max_bytes, Ghost(buffer@));
    let ghost view = buffer@;
    let mut out = String::new();
    let mut j: usize = keep;
    proof {
        lemma_tail_start_at_bound(view, max_bytes as nat);
        assert(view.subrange(keep as int, keep as int) =~= Seq::<Seq<char>>::empty());
    }
    while j < snapshot.len()
        invariant
            snapshot@.len() == view.len(),
            forall|i: int| 0 <= i < view.len() ==> (#[trigger] snapshot@[i])@ == view[i],
            keep <= j <= view.len(),
            out@ == joined(view.subrange(keep as int, j as int)),
        decreases view.len() - j,
    {
        let ghost before = view.subrange(keep as int, j as int);
        if j > keep {
            push_char(&mut out, '\n');
        }
        out.append(snapshot[j].as_str());
        proof {
            let after = view.subrange(keep as int, j + 1);
            assert(after.drop_last() =~= before);
            assert(after.last() == view[j as int]);
            if j == keep {
                assert(before.len() == 0);
                assert(after.len() == 1);
                assert(out@ =~= snapshot@[j as int]@);
            }
        }
        j = j + 1;
    }
    proof {
        assert(view.subrange(keep as int, view.len() as int) =~= view.skip(keep as int));
        if view.skip(keep as int).len() > 0 {
            lemma_joined_bytes(view.skip(keep as int));
        }
    }
    out
}

pub(crate) proof fn lemma_tail_start_at_bound(lines: Seq<Seq<char>>, max_bytes: nat)
    ensures
        tail_start(lines, max_bytes) <= lines.len(),
        stored_bytes(lines.skip(tail_start(lines, max_bytes) as int)) <= max_bytes,
    decreases lines.len(),
{
    if stored_bytes(lines) <= max_bytes || lines.len() == 0 {
        assert(lines.skip(0) =~= lines);
    } else {
        lemma_tail_start_at_bound(lines.drop_first(), max_bytes);
        let k = tail_start(lines.drop_first(), max_bytes);
        assert(lines.drop_first().skip(k as int) =~= lines.skip((k + 1) as int));
    }
}

proof fn lemma_tail_start_le(lines: Seq<Seq<char>>, max_bytes: nat, k: int)
    requires
        0 <= k <= lines.len(),
        stored_bytes(lines.skip(k)) <= max_bytes,
    ensures
        tail_start(lines, max_bytes) <= k,
    decreases lines.len(),
{
    if !(stored_bytes(lines) <= max_bytes || lines.len() == 0) {
        assert(lines.skip(0) =~= lines);
        assert(k > 0);
        assert(lines.drop_first().skip(k - 1) =~= lines.skip(k));
        lemma_tail_start_le(lines.drop_first(), max_bytes, k - 1);
    }
}

/// The tail always ends with the newest line when that line alone fits the
/// budget.
pub proof fn lemma_tail_keeps_newest(lines: Seq<Seq<char>>, max_bytes: nat)
    requires
        lines.len() > 0,
        line_bytes(lines.last()) + 1 <= max_bytes,
    ensures
        tail_start(lines, max_bytes) < lines.len(),
        joined(lines.skip(tail_start(lines, max_bytes) as int)).len() >= lines.last().len(),
        joined(lines.skip(tail_start(lines, max_bytes) as int)).subrange(
            joined(lines.skip(tail_start(lines, max_bytes) as int)).len() - lines.last().len(),
            joined(lines.skip(tail_start(lines, max_bytes) as int)).len() as int,
        ) == lines.last(),
{
    let n = lines.len() as int;
    lemma_skip_step(lines, n - 1);
    assert(lines.skip(n) =~= Seq::<Seq<char>>::empty());
    lemma_tail_start_le(lines, max_bytes, n - 1);
    let t = lines.skip(tail_start(lines, max_bytes) as int);
    assert(t.last() == lines.last());
    let j = joined(t);
    if t.len() == 1 {
        assert(j.subrange(0, j.len() as int) =~= j);
    } else {
        assert(j.subrange(j.len() - lines.last().len(), j.len() as int) =~= lines.last());
    }
}


/// A written diagnostics file: where it is and how many bytes it has.
#[derive(Debug, Clone)]
pub struct DiagnosticsBundle {
    pub path: String,
    /// The file's size, `u32::MAX` when larger, 0 when it could not be read.
    pub bytes: u32,
}

/// The bundle for the file at `path` whose size is `file_len` (`None` when
/// the size could not be read).
pub fn diagnostics_bundle(path: String, file_len: Option<u64>) -> (r: DiagnosticsBundle)
    ensures
        r.path@ == path@,
        r.bytes == match file_len {
            Some(n) => if n > u32::MAX {
                u32::MAX as int
            } else {
                n as int
            },
            None => 0,
        },
{
    let bytes: u32 = match file_len {
        Some(n) => if n > 4294967295 {
            4294967295
        } else {
            n as u32
        },
        None => 0,
    };
    DiagnosticsBundle { path, bytes }
}


/// `phonemic v<version>`, then the operating system, architecture and
/// family, one `key=value` per line.
pub open spec fn platform_text(version: Seq<char>, os: Seq<char>, arch: Seq<char>, family: Seq<char>) -> Seq<char> {
    "phonemic v"@ + version + "\nos="@ + os + "\narch="@ + arch + "\nfamily="@ + family
}

/// The platform section of a diagnostics file, for the running system's
/// `os`, `arch` and `family` names.
pub fn platform_info(version: &str, os: &str, arch: &str, family: &str) -> (r: String)
    ensures
        r@ == platform_text(version@, os@, arch@, family@),
{
    let mut r = String::from_str("phonemic v");
    push_str(&mut r, version);
    push_str(&mut r, "\nos=");
    push_str(&mut r, os);
    push_str(&mut r, "\narch=");
    push_str(&mut r, arch);
    push_str(&mut r, "\nfamily=");
    push_str(&mut r, family);
    r
}

/// `phonemic-diagnostics-<unix seconds>.txt`.
pub fn diagnostics_file_name(unix_secs: u64) -> (r: String)
    ensures
        r@ == "phonemic-diagnostics-"@ + decimal(unix_secs as nat) + ".txt"@,
{
    let mut r = String::from_str("phonemic-diagnostics-");
    push_decimal(&mut r, unix_secs);
    push_str(&mut r, ".txt");
    r
}

/// The text of a diagnostics file: the platform, the configuration and the
/// log tail, each under its heading.
pub open spec fn report_text(platform: Seq<char>, config: Seq<char>, log: Seq<char>) -> Seq<char> {
    "===== platform =====\n"@ + platform + "\n\n===== config (redacted) =====\n"@ + config
        + "\n===== log (tail \u{2264} "@ + decimal(MAX_DIAGNOSTICS_LOG_BYTES as nat) + " bytes) =====\n"@
        + log + "\n"@
}

/// The diagnostics file for `platform`, `config` (as TOML) and `log`.
pub fn diagnostics_report(platform: &str, config: &str, log: &str) -> (r: String)
    ensures
        r@ == report_text(platform@, config@, log@),
{
    let mut r = String::from_str("===== platform =====\n");
    push_str(&mut r, platform);
    push_str(&mut r, "\n\n===== config (redacted) =====\n");
    push_str(&mut r, config);
    push_str(&mut r, "\n===== log (tail \u{2264} ");
    push_decimal(&mut r, MAX_DIAGNOSTICS_LOG_BYTES as u64);
    push_str(&mut r, " bytes) =====\n");
    push_str(&mut r, log);
    push_str(&mut r, "\n");
    r
}

} // verus!
