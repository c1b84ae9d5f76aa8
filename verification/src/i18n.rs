//! Interface languages and how one is chosen from a system locale.

use vstd::prelude::*;
use vstd::string::StrSliceExecFns;
use crate::text::{chars_of, trim_bounds, trimmed};

verus! {

/// The languages the interface is translated into.
#[derive(Debug, Clone, Copy, PartialEq, Eq, Structural, Hash)]
pub enum Lang {
    ZhCN,
    EnUS,
}

/// The BCP 47 tag of a language.
pub open spec fn lang_tag(lang: Lang) -> Seq<char> {
    match lang {
        Lang::ZhCN => seq!['z', 'h', '-', 'C', 'N'],
        Lang::EnUS => seq!['e', 'n', '-', 'U', 'S'],
    }
}

/// The language whose tag equals `s` up to ASCII case, if any.
pub open spec fn lang_from_tag(s: Seq<char>) -> Option<Lang> {
    if ascii_ci_eq(s, lang_tag(Lang::ZhCN)) {
        Some(Lang::ZhCN)
    } else if ascii_ci_eq(s, lang_tag(Lang::EnUS)) {
        Some(Lang::EnUS)
    } else {
        None
    }
}

/// ASCII letters folded to lowercase; every other character unchanged.
pub open spec fn ascii_lower(c: char) -> char {
    if 'A' <= c <= 'Z' {
        ((c as u32) + 32) as char
    } else {
        c
    }
}

/// Equal up to the case of ASCII letters.
pub open spec fn ascii_ci_eq(a: Seq<char>, b: Seq<char>) -> bool {
    &&& a.len() == b.len()
    &&& forall|i: int| 0 <= i < a.len() ==> ascii_lower(#[trigger] a[i]) == ascii_lower(b[i])
}

/// The primary subtag of a locale: everything before the first `-` or `_`.
pub open spec fn primary_subtag(s: Seq<char>) -> Seq<char>
    decreases s.len(),
{
    if s.len() == 0 || s[0] == '-' || s[0] == '_' {
        Seq::empty()
    } else {
        seq![s[0]] + primary_subtag(s.drop_first())
    }
}

/// The language for a system locale: Chinese when its primary subtag is
/// `zh` in any case, English otherwise (an empty locale included).
pub open spec fn lang_for_locale(locale: Seq<char>) -> Lang {
    let t = trimmed(locale);
    if t.len() == 0 {
        Lang::EnUS
    } else if ascii_ci_eq(primary_subtag(t), seq!['z', 'h']) {
        Lang::ZhCN
    } else {
        Lang::EnUS
    }
}

fn lower(c: char) -> (r: char)
    ensures
        r == ascii_lower(c),
{
    if 'A' <= c && c <= 'Z' {
        let u: u32 = (c as u32) + 32;
        let b: u8 = u as u8;
        b as char
    } else {
        c
    }
}

/// Whether `s` equals the ASCII text `tag` up to the case of ASCII letters.
fn eq_ignore_ascii_case_tag(s: &str, tag: &str) -> (r: bool)
    ensures
        r == ascii_ci_eq(s@, tag@),
{
    let n: usize = s.unicode_len();
    let m: usize = tag.unicode_len();
    if n != m {
        return false;
    }
    let mut i: usize = 0;
    while i < n
        invariant
            n == s@.len(),
            m == tag@.len(),
            n == m,
            i <= n,
            forall|j: int| 0 <= j < i ==> ascii_lower(#[trigger] s@[j]) == ascii_lower(tag@[j]),
        decreases n - i,
    {
        if lower(s.get_char(i)) != lower(tag.get_char(i)) {
            return false;
        }
        i = i + 1;
    }
    true
}

impl Lang {
    /// The BCP 47 tag, `zh-CN` or `en-US`.
    pub fn as_str(self) -> (r: &'static str)
        ensures
            r@ == lang_tag(self),
    {
        proof {
            reveal_strlit("zh-CN");
            reveal_strlit("en-US");
        }
        match self {
            Lang::ZhCN => "zh-CN",
            Lang::EnUS => "en-US",
        }
    }

    /// The language whose tag equals `s` up to ASCII case, if any.
    pub fn from_str(s: &str) -> (r: Option<Lang>)
        ensures
            r == lang_from_tag(s@),
    {
        proof {
            reveal_strlit("zh-CN");
            reveal_strlit("en-US");
        }
        if eq_ignore_ascii_case_tag(s, "zh-CN") {
            Some(Lang::ZhCN)
        } else if eq_ignore_ascii_case_tag(s, "en-US") {
            Some(Lang::EnUS)
        } else {
            None
        }
    }
}

proof fn lemma_primary_zh(t: Seq<char>)
    ensures
        ascii_ci_eq(primary_subtag(t), seq!['z', 'h']) <==> (t.len() >= 2 && ascii_lower(t[0]) == 'z'
            && ascii_lower(t[1]) == 'h' && (t.len() == 2 || t[2] == '-' || t[2] == '_')),
{
    let p = primary_subtag(t);
    if t.len() >= 1 && t[0] != '-' && t[0] != '_' {
        let t1 = t.drop_first();
        if t1.len() >= 1 && t1[0] != '-' && t1[0] != '_' {
            let t2 = t1.drop_first();
            assert(primary_subtag(t1) == seq![t1[0]] + primary_subtag(t2));
            assert(p == seq![t[0]] + primary_subtag(t1));
            assert(t1[0] == t[1]);
            if t2.len() >= 1 && t2[0] != '-' && t2[0] != '_' {
                assert(primary_subtag(t2) == seq![t2[0]] + primary_subtag(t2.drop_first()));
                assert(p.len() >= 3);
                assert(t2[0] == t[2]);
            } else {
                assert(primary_subtag(t2) =~= Seq::<char>::empty());
                assert(p =~= seq![t[0], t[1]]);
                if t2.len() >= 1 {
                    assert(t2[0] == t[2]);
                }
            }
        } else {
            assert(primary_subtag(t1) =~= Seq::<char>::empty());
            assert(p =~= seq![t[0]]);
        }
    } else {
        assert(p =~= Seq::<char>::empty());
    }
}

/// The interface language for a system locale such as `zh_TW` or `en-US`.
pub fn decide_lang(locale: &str) -> (r: Lang)
    ensures
        r == lang_for_locale(locale@),
{
    let cs = chars_of(locale);
    let (lo, hi) = trim_bounds(&cs, 0, cs.len());
    let ghost t = cs@.subrange(lo as int, hi as int);
    proof {
        assert(cs@.subrange(0, cs@.len() as int) =~= cs@);
        lemma_primary_zh(t);
    }
    let n: usize = hi - lo;
    if n == 0 {
        return Lang::EnUS;
    }
    if n < 2 {
        return Lang::EnUS;
    }
    assert(t[0] == cs@[lo as int] && t[1] == cs@[lo + 1]);
    if lower(cs[lo]) != 'z' || lower(cs[lo + 1]) != 'h' {
        return Lang::EnUS;
    }
    if n == 2 {
        return Lang::ZhCN;
    }
    let c = cs[lo + 2];
    assert(t[2] == c);
    if c == '-' || c == '_' {
        Lang::ZhCN
    } else {
        Lang::EnUS
    }
}

/// Every language reads back from its own tag.
pub proof fn lemma_lang_tag_round_trip(lang: Lang)
    ensures
        ascii_ci_eq(lang_tag(lang), lang_tag(lang)),
        !ascii_ci_eq(lang_tag(Lang::ZhCN), lang_tag(Lang::EnUS)),
{
    assert(lang_tag(Lang::ZhCN)[0] == 'z');
    assert(lang_tag(Lang::EnUS)[0] == 'e');
}

} // verus!
