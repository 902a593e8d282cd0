//! Primitive value parsers: unsigned integers, decimal numbers, and
//! byte-quantity magnitudes (speed and IOPS values).

use vstd::prelude::*;
use rust_decimal::Decimal;
use crate::outside::{byte_from_str, bytes_of, decimal_from_str, decimal_of};
use crate::scan::{digits_val, run_end, scan_class, CharClass};
use crate::types::{ParseError, ParseFault};

verus! {

/// Consuming a 32-bit unsigned integer from the front of `s`: the maximal
/// run of ASCII digits, read most significant first. Fails if there is no
/// digit or the run's value does not fit in 32 bits.
pub open spec fn spec_parse_u32(s: Seq<char>) -> Option<(Seq<char>, u32)> {
    let j = run_end(s, 0, CharClass::Digit);
    if j == 0 {
        None
    } else if digits_val(s.subrange(0, j)) <= u32::MAX {
        Some((s.subrange(j, s.len() as int), digits_val(s.subrange(0, j)) as u32))
    } else {
        None
    }
}

pub proof fn lemma_parse_u32_shrinks(s: Seq<char>)
    ensures
        spec_parse_u32(s) matches Some((r, v)) ==> r.len() < s.len(),
{
    crate::scan::lemma_run_end_bounds(s, 0, CharClass::Digit);
}

/// Parses a 32-bit unsigned integer from the front of the input, handing
/// back the unconsumed remainder.
pub fn parse_u32(input: &str) -> (r: Result<(&str, u32), ParseError>)
    ensures
        match r {
            Ok((rest, v)) => spec_parse_u32(input@) == Some((rest@, v)),
            Err(_) => spec_parse_u32(input@) is None,
        },
{
    let n = input.unicode_len();
    let j = scan_class(input, 0, CharClass::Digit);
    if j == 0 {
        return Err(ParseError { fault: ParseFault::Integer, at: 0 });
    }
    proof {
        crate::scan::lemma_run_end_chars(input@, 0, CharClass::Digit);
    }
    let mut k: usize = 0;
    let mut v: u64 = 0;
    let mut over: bool = false;
    while k < j
        invariant
            0 <= k <= j <= n,
            n == input@.len(),
            j == run_end(input@, 0, CharClass::Digit),
            forall|t: int| 0 <= t < j ==> crate::scan::char_in_class(CharClass::Digit, input@[t]),
            !over ==> v == digits_val(input@.subrange(0, k as int)) && v <= u32::MAX,
            over ==> digits_val(input@.subrange(0, k as int)) > u32::MAX,
        decreases j - k,
    {
        let c = input.get_char(k);
        let d = (c as u32) - ('0' as u32);
        proof {
            assert(input@.subrange(0, k + 1).drop_last() =~= input@.subrange(0, k as int));
            assert(input@.subrange(0, k + 1).last() == input@[k as int]);
        }
        if !over {
            v = v * 10 + (d as u64);
            if v > (u32::MAX as u64) {
                over = true;
            }
        }
        k = k + 1;
    }
    proof {
        assert(input@.subrange(0, j as int) == input@.subrange(0, k as int));
    }
    if over {
        return Err(ParseError { fault: ParseFault::Integer, at: 0 });
    }
    let rest = input.substring_char(j, n);
    Ok((rest, v as u32))
}

/// Consuming a decimal number from the front of `s`: the maximal run of
/// ASCII digits and `.` characters, handed to the exact-decimal parser.
/// Fails if that run does not denote a decimal (in particular if it is
/// empty).
pub open spec fn spec_parse_decimal(s: Seq<char>) -> Option<(Seq<char>, Decimal)> {
    let j = run_end(s, 0, CharClass::DigitDot);
    match decimal_of(s.subrange(0, j)) {
        Some(d) => Some((s.subrange(j, s.len() as int), d)),
        None => None,
    }
}

/// Parses a decimal number from the front of the input, handing back the
/// unconsumed remainder.
pub fn parse_decimal(input: &str) -> (r: Result<(&str, Decimal), ParseError>)
    ensures
        match r {
            Ok((rest, d)) => spec_parse_decimal(input@) == Some((rest@, d)),
            Err(_) => spec_parse_decimal(input@) is None,
        },
{
    let n = input.unicode_len();
    let j = scan_class(input, 0, CharClass::DigitDot);
    let num = input.substring_char(0, j);
    match decimal_from_str(num) {
        Some(d) => {
            let rest = input.substring_char(j, n);
            Ok((rest, d))
        },
        None => Err(ParseError { fault: ParseFault::Decimal, at: 0 }),
    }
}

/// `s` with every trailing `/s` removed.
pub open spec fn strip_per_sec(s: Seq<char>) -> Seq<char>
    decreases s.len(),
{
    if s.len() >= 2 && s[s.len() - 2] == '/' && s[s.len() - 1] == 's' {
        strip_per_sec(s.subrange(0, s.len() - 2))
    } else {
        s
    }
}

/// The byte-per-second quantity a speed value denotes: its trailing `/s`
/// stripped, the rest read as a byte quantity. Absent if the remainder is
/// not a byte quantity.
pub fn parse_speed_str(speed: &str) -> (r: Option<u64>)
    ensures
        r == bytes_of(strip_per_sec(speed@)),
{
    let mut end = speed.unicode_len();
    proof {
        assert(speed@.subrange(0, end as int) =~= speed@);
    }
    loop
        invariant
            end <= speed@.len(),
            strip_per_sec(speed@) == strip_per_sec(speed@.subrange(0, end as int)),
        ensures
            end <= speed@.len(),
            strip_per_sec(speed@) == speed@.subrange(0, end as int),
        decreases end,
    {
        if end < 2 {
            break ;
        }
        let a = speed.get_char(end - 2);
        let b = speed.get_char(end - 1);
        if !(a == '/' && b == 's') {
            break ;
        }
        proof {
            assert(speed@.subrange(0, end as int).subrange(0, end - 2) =~= speed@.subrange(
                0,
                end - 2,
            ));
        }
        end = end - 2;
    }
    let stripped = speed.substring_char(0, end);
    byte_from_str(stripped)
}

/// The I/O-operation count an IOPS value denotes: the text read as a
/// magnitude with an optional scale suffix (`256`, `1883k`). Absent if the
/// text is not such a magnitude.
pub fn parse_iops_str(iops: &str) -> (r: Option<u64>)
    ensures
        r == bytes_of(iops@),
{
    byte_from_str(iops)
}

} // verus!
