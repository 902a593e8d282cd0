//! Character-level scanning primitives: classified character runs, literal
//! matching, and delimiter search, each with an exact specification over the
//! input's view.

use vstd::prelude::*;
use crate::outside::alnum_char;

verus! {

/// The character classes whose maximal runs the grammar consumes.
#[derive(Debug, Clone, Copy, PartialEq, Eq)]
pub enum CharClass {
    /// ASCII decimal digit.
    Digit,
    /// ASCII decimal digit or `.`.
    DigitDot,
    /// Unicode alphanumeric or `/` (the shape of a `tag=value` value).
    AlnumSlash,
    /// ASCII graphic character (`!` through `~`).
    Graphic,
    /// Space or tab.
    Space,
}

pub open spec fn is_digit_char(c: char) -> bool {
    ('0' as u32) <= (c as u32) && (c as u32) <= ('9' as u32)
}

pub open spec fn digit_val(c: char) -> int {
    (c as u32) - ('0' as u32)
}

pub open spec fn char_in_class(cls: CharClass, c: char) -> bool {
    match cls {
        CharClass::Digit => is_digit_char(c),
        CharClass::DigitDot => is_digit_char(c) || c == '.',
        CharClass::AlnumSlash => alnum_char(c) || c == '/',
        CharClass::Graphic => 33 <= (c as u32) && (c as u32) <= 126,
        CharClass::Space => c == ' ' || c == '\t',
    }
}

/// The first index at or after `i` whose character falls outside `cls`
/// (the end of the maximal run of `cls` characters starting at `i`).
pub open spec fn run_end(s: Seq<char>, i: int, cls: CharClass) -> int
    decreases s.len() - i,
{
    if 0 <= i && i < s.len() && char_in_class(cls, s[i]) {
        run_end(s, i + 1, cls)
    } else {
        i
    }
}

pub proof fn lemma_run_end_bounds(s: Seq<char>, i: int, cls: CharClass)
    requires
        0 <= i <= s.len(),
    ensures
        i <= run_end(s, i, cls) <= s.len(),
    decreases s.len() - i,
{
    if i < s.len() && char_in_class(cls, s[i]) {
        lemma_run_end_bounds(s, i + 1, cls);
    }
}

pub proof fn lemma_run_end_chars(s: Seq<char>, i: int, cls: CharClass)
    requires
        0 <= i <= s.len(),
    ensures
        forall|k: int| i <= k < run_end(s, i, cls) ==> char_in_class(cls, s[k]),
    decreases s.len() - i,
{
    if i < s.len() && char_in_class(cls, s[i]) {
        lemma_run_end_chars(s, i + 1, cls);
    }
}

/// The numeric value of a sequence of decimal digits, most significant first.
pub open spec fn digits_val(s: Seq<char>) -> int
    decreases s.len(),
{
    if s.len() == 0 {
        0
    } else {
        digits_val(s.drop_last()) * 10 + digit_val(s.last())
    }
}

/// The literal `pat` occurs in `s` at position `i`.
pub open spec fn lit_at(s: Seq<char>, i: int, pat: Seq<char>) -> bool {
    0 <= i && i + pat.len() <= s.len() && s.subrange(i, i + pat.len()) == pat
}

/// The first position at or after `i` where `pat` occurs in `s`.
pub open spec fn find_at(s: Seq<char>, i: int, pat: Seq<char>) -> Option<int>
    decreases s.len() - i,
{
    if i < 0 || i + pat.len() > s.len() {
        None
    } else if pat.len() == 0 {
        Some(i)
    } else if lit_at(s, i, pat) {
        Some(i)
    } else {
        find_at(s, i + 1, pat)
    }
}

/// Consuming the literal `t` from the front of `s`: the remainder, if `t`
/// is a prefix of `s`.
pub open spec fn spec_tag(s: Seq<char>, t: Seq<char>) -> Option<Seq<char>> {
    if lit_at(s, 0, t) {
        Some(s.subrange(t.len() as int, s.len() as int))
    } else {
        None
    }
}

/// Decides membership of one character in a class.
pub(crate) fn class_matches(cls: CharClass, c: char) -> (r: bool)
    ensures
        r == char_in_class(cls, c),
{
    match cls {
        CharClass::Digit => ('0' as u32) <= (c as u32) && (c as u32) <= ('9' as u32),
        CharClass::DigitDot => (('0' as u32) <= (c as u32) && (c as u32) <= ('9' as u32)) || c
            == '.',
        CharClass::AlnumSlash => char_is_alnum_exec(c) || c == '/',
        CharClass::Graphic => 33 <= (c as u32) && (c as u32) <= 126,
        CharClass::Space => c == ' ' || c == '\t',
    }
}

fn char_is_alnum_exec(c: char) -> (r: bool)
    ensures
        r == alnum_char(c),
{
    crate::outside::char_is_alphanumeric(c)
}

/// Scans the maximal run of `cls` characters starting at `from`.
pub(crate) fn scan_class(s: &str, from: usize, cls: CharClass) -> (end: usize)
    requires
        from <= s@.len(),
    ensures
        end == run_end(s@, from as int, cls),
        from <= end <= s@.len(),
{
    let n = s.unicode_len();
    let mut i = from;
    loop
        invariant
            from <= i <= n,
            n == s@.len(),
            run_end(s@, from as int, cls) == run_end(s@, i as int, cls),
        ensures
            i == run_end(s@, from as int, cls),
            from <= i <= n,
        decreases n - i,
    {
        if i >= n {
            break ;
        }
        let c = s.get_char(i);
        if !class_matches(cls, c) {
            break ;
        }
        i = i + 1;
    }
    i
}

/// Decides whether the literal `pat` occurs in `s` at position `i`.
pub(crate) fn match_lit(s: &str, i: usize, pat: &str) -> (r: bool)
    requires
        i <= s@.len(),
    ensures
        r == lit_at(s@, i as int, pat@),
{
    let n = s.unicode_len();
    let m = pat.unicode_len();
    if m > n - i {
        return false;
    }
    let mut k: usize = 0;
    while k < m
        invariant
            0 <= k <= m,
            i + m <= n,
            n == s@.len(),
            m == pat@.len(),
            s@.subrange(i as int, i + k) == pat@.subrange(0, k as int),
        decreases m - k,
    {
        let a = s.get_char(i + k);
        let b = pat.get_char(k);
        if a != b {
            proof {
                if lit_at(s@, i as int, pat@) {
                    assert(s@.subrange(i as int, i + m as int)[k as int] == pat@[k as int]);
                }
            }
            return false;
        }
        proof {
            assert(s@.subrange(i as int, i + k + 1) =~= pat@.subrange(0, k + 1));
        }
        k = k + 1;
    }
    proof {
        assert(pat@.subrange(0, m as int) =~= pat@);
        assert(s@.subrange(i as int, i + m as int) == pat@);
    }
    true
}

/// Finds the first occurrence of `pat` at or after `from`.
pub(crate) fn find_lit(s: &str, from: usize, pat: &str) -> (r: Option<usize>)
    requires
        from <= s@.len(),
    ensures
        match r {
            Some(j) => find_at(s@, from as int, pat@) == Some(j as int) && from <= j && j
                + pat@.len() <= s@.len(),
            None => find_at(s@, from as int, pat@) is None,
        },
{
    let n = s.unicode_len();
    let m = pat.unicode_len();
    let mut i = from;
    loop
        invariant
            from <= i <= n,
            n == s@.len(),
            m == pat@.len(),
            find_at(s@, from as int, pat@) == find_at(s@, i as int, pat@),
        decreases n - i,
    {
        if m > n - i {
            return None;
        }
        if match_lit(s, i, pat) {
            return Some(i);
        }
        proof {
            if m == 0 {
                assert(s@.subrange(i as int, i as int) =~= pat@);
            }
        }
        i = i + 1;
    }
}

/// Consumes the literal `t` from the front of `s`, handing back the remainder.
pub(crate) fn take_tag<'a>(s: &'a str, t: &str) -> (r: Option<&'a str>)
    ensures
        match r {
            Some(rest) => spec_tag(s@, t@) == Some(rest@),
            None => spec_tag(s@, t@) is None,
        },
{
    if match_lit(s, 0, t) {
        let rest = s.substring_char(t.unicode_len(), s.unicode_len());
        Some(rest)
    } else {
        None
    }
}

} // verus!
