//! How a log event becomes one line of the rolling log.

use vstd::prelude::*;
use vstd::string::StringExecFns;
use crate::text::{chars_of, push_char, push_str, string_from_chars};

verus! {

/// `s` padded with spaces on the right to at least `width` characters.
pub open spec fn padded(s: Seq<char>, width: nat) -> Seq<char> {
    if s.len() >= width {
        s
    } else {
        s + Seq::new((width - s.len()) as nat, |i: int| ' ')
    }
}

/// `<level padded to 5> <module> <message><fields>`, the module `?` when
/// unknown.
pub open spec fn log_line_text(level: Seq<char>, module: Option<Seq<char>>, message: Seq<char>, kvs: Seq<char>) -> Seq<char> {
    padded(level, 5) + seq![' '] + (match module {
        Some(m) => m,
        None => seq!['?'],
    }) + seq![' '] + message + kvs
}

/// The line for one event.
pub fn log_line(level: &str, module: Option<&str>, message: &str, kvs: &str) -> (r: String)
    ensures
        r@ == log_line_text(level@, match module {
            Some(m) => Some(m@),
            None => None,
        }, message@, kvs@),
{
    let mut out = String::from_str(level);
    let n: usize = chars_of(level).len();
    let ghost start = out@;
    let mut k: usize = n;
    while k < 5
        invariant
            n == level@.len(),
            n <= k <= 5 || (n > 5 && k == n),
            out@ == level@ + Seq::new((k - n) as nat, |i: int| ' '),
        decreases 5 - k,
    {
        push_char(&mut out, ' ');
        assert(Seq::new((k + 1 - n) as nat, |i: int| ' ') =~= Seq::new((k - n) as nat, |i: int| ' ').push(' '));
        k = k + 1;
    }
    assert(out@ =~= padded(level@, 5));
    push_char(&mut out, ' ');
    match module {
        Some(m) => push_str(&mut out, m),
        None => push_char(&mut out, '?'),
    }
    push_char(&mut out, ' ');
    push_str(&mut out, message);
    push_str(&mut out, kvs);
    out
}

/// The message and the other fields of an event, as they are recorded.
#[derive(Debug, Default)]
pub struct LineBuilder {
    pub message: String,
    pub kvs: String,
}

/// A debug-formatted message loses the quotes around it.
pub open spec fn unquoted(s: Seq<char>) -> Seq<char> {
    if s.len() >= 2 && s[0] == '"' && s.last() == '"' {
        s.subrange(1, s.len() - 1)
    } else {
        s
    }
}

impl LineBuilder {
    /// Records a text field: the message replaces the message, any other
    /// field is appended as ` name=value`.
    pub fn record_str(&mut self, name: &str, value: &str)
        ensures
            name@ == "message"@ ==> final(self).message@ == value@ && final(self).kvs@ == old(self).kvs@,
            name@ != "message"@ ==> final(self).message@ == old(self).message@ && final(self).kvs@
                == old(self).kvs@ + seq![' '] + name@ + seq!['='] + value@,
    {
        if is_message(name) {
            self.message = String::from_str(value);
        } else {
            push_char(&mut self.kvs, ' ');
            push_str(&mut self.kvs, name);
            push_char(&mut self.kvs, '=');
            push_str(&mut self.kvs, value);
        }
    }

    /// Records a field by its debug text: the message, unquoted, replaces the
    /// message; any other field is appended as ` name=debug`.
    pub fn record_debug(&mut self, name: &str, debug_text: &str)
        ensures
            name@ == "message"@ ==> final(self).message@ == unquoted(debug_text@) && final(self).kvs@
                == old(self).kvs@,
            name@ != "message"@ ==> final(self).message@ == old(self).message@ && final(self).kvs@
                == old(self).kvs@ + seq![' '] + name@ + seq!['='] + debug_text@,
    {
        if is_message(name) {
            let cs = chars_of(debug_text);
            let n = cs.len();
            if n >= 2 && cs[0] == '"' && cs[n - 1] == '"' {
                self.message = string_from_chars(&cs, 1, n - 1);
            } else {
                self.message = String::from_str(debug_text);
            }
        } else {
            push_char(&mut self.kvs, ' ');
            push_str(&mut self.kvs, name);
            push_char(&mut self.kvs, '=');
            push_str(&mut self.kvs, debug_text);
        }
    }
}

fn is_message(name: &str) -> (r: bool)
    ensures
        r == (name@ == "message"@),
{
    let cs = chars_of(name);
    let m = chars_of("message");
    proof {
        reveal_strlit("message");
    }
    if cs.len() != 7 {
        return false;
    }
    let mut i: usize = 0;
    while i < 7
        invariant
            cs@ == name@,
            m@ == "message"@,
            m@.len() == 7,
            cs@.len() == 7,
            i <= 7,
            forall|j: int| 0 <= j < i ==> cs@[j] == m@[j],
        decreases 7 - i,
    {
        if cs[i] != m[i] {
            return false;
        }
        i = i + 1;
    }
    assert(cs@ =~= m@);
    true
}

} // verus!
