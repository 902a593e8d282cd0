//! The line grammar and its parser: a fixed sequence of sub-parsers, each
//! consuming a prefix of the input and specified exactly against spec
//! functions over the input's view.

use vstd::prelude::*;
use rust_decimal::Decimal;
use crate::outside::{bytes_of, decimal_of, duration_of_secs};
use crate::scan::{find_at, lit_at, run_end, spec_tag, CharClass};
use crate::scan::{find_lit, match_lit, scan_class, take_tag};
use crate::types::{spec_fold_statuses, spec_status_of_char, JobStatus, JobStatuses};
use crate::types::{FioEtaLine, FioIOPS, FioRateLimit, FioSpeed, ParseError, ParseFault};
use crate::utils::{parse_iops_str, parse_speed_str, parse_u32, spec_parse_u32, strip_per_sec};
use crate::types::fold_job_statuses;

verus! {

// ----------------------------------------------------------------------------
// Job-status list: `[` (`<char>(<count>)` separated by `,`)* `]`
// ----------------------------------------------------------------------------
/// One `<char>(<count>)` entry.
pub open spec fn spec_status_entry(s: Seq<char>) -> Option<(Seq<char>, (char, u32))> {
    if s.len() >= 2 && s[1] == '(' {
        match spec_parse_u32(s.subrange(2, s.len() as int)) {
            Some((r, n)) => if r.len() >= 1 && r[0] == ')' {
                Some((r.subrange(1, r.len() as int), (s[0], n)))
            } else {
                None
            },
            None => None,
        }
    } else {
        None
    }
}

/// Zero or more further entries, each preceded by `,`; a trailing separator
/// that no entry follows is left unconsumed.
pub open spec fn spec_status_rest(s: Seq<char>) -> (Seq<char>, Seq<(char, u32)>)
    decreases s.len(),
{
    if s.len() >= 1 && s[0] == ',' {
        match spec_status_entry(s.subrange(1, s.len() as int)) {
            Some((r, e)) => if r.len() < s.len() {
                let t = spec_status_rest(r);
                (t.0, seq![e] + t.1)
            } else {
                (s, Seq::<(char, u32)>::empty())
            },
            None => (s, Seq::<(char, u32)>::empty()),
        }
    } else {
        (s, Seq::<(char, u32)>::empty())
    }
}

/// Zero or more entries separated by `,`.
pub open spec fn spec_status_list0(s: Seq<char>) -> (Seq<char>, Seq<(char, u32)>) {
    match spec_status_entry(s) {
        None => (s, Seq::<(char, u32)>::empty()),
        Some((r, e)) => {
            let t = spec_status_rest(r);
            (t.0, seq![e] + t.1)
        },
    }
}

/// Each entry's character mapped through the total status mapping.
pub open spec fn map_status_entries(raw: Seq<(char, u32)>) -> Seq<(JobStatus, u32)> {
    raw.map_values(|e: (char, u32)| (spec_status_of_char(e.0), e.1))
}

/// The bracketed status list, folded into aggregate counters.
pub open spec fn spec_job_statuses(s: Seq<char>) -> Option<(Seq<char>, JobStatuses)> {
    match spec_tag(s, "["@) {
        Some(s1) => {
            let t = spec_status_list0(s1);
            match spec_tag(t.0, "]"@) {
                Some(r2) => Some((r2, spec_fold_statuses(map_status_entries(t.1)))),
                None => None,
            }
        },
        None => None,
    }
}

fn job_status_entry(s: &str) -> (r: Option<(&str, (char, u32))>)
    ensures
        match r {
            Some((rest, e)) => spec_status_entry(s@) == Some((rest@, e)) && rest@.len() < s@.len(),
            None => spec_status_entry(s@) is None,
        },
{
    let n = s.unicode_len();
    if n < 2 {
        return None;
    }
    let c = s.get_char(0);
    if s.get_char(1) != '(' {
        return None;
    }
    let tail = s.substring_char(2, n);
    match parse_u32(tail) {
        Err(_) => None,
        Ok((r1, v)) => {
            let m = r1.unicode_len();
            if m == 0 {
                return None;
            }
            if r1.get_char(0) != ')' {
                return None;
            }
            let rest = r1.substring_char(1, m);
            proof {
                crate::utils::lemma_parse_u32_shrinks(tail@);
            }
            Some((rest, (c, v)))
        },
    }
}

/// Parses one `<char>(<count>)` entry, the character mapped to its category.
pub fn parse_job_status(input: &str) -> (r: Result<(&str, (JobStatus, u32)), ParseError>)
    ensures
        match r {
            Ok((rest, e)) => (spec_status_entry(input@) matches Some((rr, raw)) && rest@ == rr
                && e.0 == spec_status_of_char(raw.0) && e.1 == raw.1),
            Err(_) => spec_status_entry(input@) is None,
        },
{
    match job_status_entry(input) {
        Some((rest, e)) => Ok((rest, (JobStatus::from_char(e.0), e.1))),
        None => Err(ParseError { fault: ParseFault::Literal, at: 0 }),
    }
}

/// Parses the bracketed status list, folding all `(status, count)` entries
/// into aggregate counters by summation.
pub fn parse_job_statuses(input: &str) -> (r: Result<(&str, JobStatuses), ParseError>)
    ensures
        match r {
            Ok((rest, js)) => spec_job_statuses(input@) == Some((rest@, js)),
            Err(_) => spec_job_statuses(input@) is None,
        },
{
    let after = match take_tag(input, "[") {
        Some(a) => a,
        None => {
            return Err(ParseError { fault: ParseFault::Literal, at: 0 });
        },
    };
    let ghost g: Seq<char> = after@;
    let mut entries: Vec<(JobStatus, u32)> = Vec::new();
    let ghost mut raw: Seq<(char, u32)> = Seq::<(char, u32)>::empty();
    let mut cur: &str = after;
    match job_status_entry(cur) {
        None => {
            proof {
                assert(spec_status_list0(g).0 == cur@);
                assert(spec_status_list0(g).1 == raw);
                assert(entries@ =~= map_status_entries(raw));
            }
        },
        Some((rest1, e1)) => {
            entries.push((JobStatus::from_char(e1.0), e1.1));
            proof {
                raw = seq![e1];
                assert(entries@ =~= map_status_entries(raw));
            }
            cur = rest1;
            loop
                invariant
                    spec_status_list0(g).0 == spec_status_rest(cur@).0,
                    spec_status_list0(g).1 == raw + spec_status_rest(cur@).1,
                    entries@ == map_status_entries(raw),
                ensures
                    spec_status_list0(g).0 == cur@,
                    spec_status_list0(g).1 == raw,
                    entries@ == map_status_entries(raw),
                decreases cur@.len(),
            {
                let n = cur.unicode_len();
                if n == 0 {
                    proof {
                        assert(spec_status_rest(cur@).1 =~= Seq::<(char, u32)>::empty());
                        assert(raw + spec_status_rest(cur@).1 =~= raw);
                    }
                    break ;
                }
                if cur.get_char(0) != ',' {
                    proof {
                        assert(raw + spec_status_rest(cur@).1 =~= raw);
                    }
                    break ;
                }
                let tail = cur.substring_char(1, n);
                match job_status_entry(tail) {
                    None => {
                        proof {
                            assert(raw + spec_status_rest(cur@).1 =~= raw);
                        }
                        break ;
                    },
                    Some((rest2, e2)) => {
                        entries.push((JobStatus::from_char(e2.0), e2.1));
                        proof {
                            let t = spec_status_rest(rest2@);
                            assert(spec_status_rest(cur@) == (t.0, seq![e2] + t.1));
                            assert(raw + (seq![e2] + t.1) =~= (raw + seq![e2]) + t.1);
                            let raw2 = raw + seq![e2];
                            assert(map_status_entries(raw2) =~= map_status_entries(raw).push(
                                (spec_status_of_char(e2.0), e2.1),
                            ));
                            raw = raw2;
                        }
                        cur = rest2;
                    },
                }
            }
        },
    }
    match take_tag(cur, "]") {
        Some(rest) => {
            let js = fold_job_statuses(&entries);
            Ok((rest, js))
        },
        None => Err(
            ParseError {
                fault: ParseFault::Literal,
                at: input.unicode_len().saturating_sub(cur.unicode_len()),
            },
        ),
    }
}

// ----------------------------------------------------------------------------
// Progress percentage: text up to `%`, decimal-parsed, absence absorbed
// ----------------------------------------------------------------------------
/// The text before the first `%`, its maximal digit-and-dot prefix handed to
/// the decimal parser; an unreadable prefix yields an absent percentage, not
/// a failure. Fails only if `%` never occurs.
pub open spec fn spec_percentage(s: Seq<char>) -> Option<(Seq<char>, Option<Decimal>)> {
    match find_at(s, 0, "%"@) {
        Some(j) => {
            let text = s.subrange(0, j);
            let l = run_end(text, 0, CharClass::DigitDot);
            Some((s.subrange(j + "%"@.len(), s.len() as int), decimal_of(text.subrange(0, l))))
        },
        None => None,
    }
}

/// Parses the progress percentage. Unreadable progress text (for example the
/// tool's `-.-` sentinel) yields `None` rather than a failure; in particular
/// a text with no leading digit or dot at all always yields `None`.
pub fn parse_percentage(input: &str) -> (r: Result<(&str, Option<Decimal>), ParseError>)
    ensures
        match r {
            Ok((rest, p)) => spec_percentage(input@) == Some((rest@, p)) && ((match find_at(
                input@,
                0,
                "%"@,
            ) {
                Some(j) => run_end(input@.subrange(0, j), 0, CharClass::DigitDot) == 0,
                None => false,
            }) ==> p is None),
            Err(_) => spec_percentage(input@) is None,
        },
{
    let n = input.unicode_len();
    match find_lit(input, 0, "%") {
        Some(j) => {
            let text = input.substring_char(0, j);
            let l = scan_class(text, 0, CharClass::DigitDot);
            let num = text.substring_char(0, l);
            let p = crate::outside::decimal_from_str(num);
            let rest = input.substring_char(j + "%".unicode_len(), n);
            Ok((rest, p))
        },
        None => Err(ParseError { fault: ParseFault::Delimiter, at: 0 }),
    }
}

// ----------------------------------------------------------------------------
// Rate-limit clause: optional `, <min>-<max>` before the status list
// ----------------------------------------------------------------------------
/// The clause text ends with the literal ` IOPS`.
pub open spec fn ends_with_iops(c: Seq<char>) -> bool {
    c.len() >= 5 && c[c.len() - 5] == ' ' && c[c.len() - 4] == 'I' && c[c.len() - 3] == 'O' && c[
        c.len() - 2] == 'P' && c[c.len() - 1] == 'S'
}

/// `c` with every trailing ` IOPS` removed.
pub open spec fn trim_iops(c: Seq<char>) -> Seq<char>
    decreases c.len(),
{
    if ends_with_iops(c) {
        trim_iops(c.subrange(0, c.len() - 5))
    } else {
        c
    }
}

/// Both bounds of a `<min>-<max>` body read as byte quantities (for a speed
/// limit the `/s` suffix of each bound is stripped first); if either bound
/// is unreadable the clause degrades to no limit.
pub open spec fn spec_bounds(b: Seq<char>, speed: bool) -> FioRateLimit {
    match find_at(b, 0, "-"@) {
        None => FioRateLimit::NoRateLimit,
        Some(d) => {
            let g = run_end(b, d + "-"@.len(), CharClass::Graphic);
            let min_txt = b.subrange(0, d);
            let max_txt = b.subrange(d + "-"@.len(), g);
            let mn = if speed {
                bytes_of(strip_per_sec(min_txt))
            } else {
                bytes_of(min_txt)
            };
            let mx = if speed {
                bytes_of(strip_per_sec(max_txt))
            } else {
                bytes_of(max_txt)
            };
            match (mn, mx) {
                (Some(a), Some(z)) => if speed {
                    FioRateLimit::SpeedLimit { min: a, max: z }
                } else {
                    FioRateLimit::IOPSLimit { min: a, max: z }
                },
                _ => FioRateLimit::NoRateLimit,
            }
        },
    }
}

/// A present clause: an ` IOPS` suffix selects the IOPS shape, anything else
/// the speed shape; a malformed clause degrades to no limit.
pub open spec fn limit_of_clause(c: Seq<char>) -> FioRateLimit {
    if ends_with_iops(c) {
        spec_bounds(trim_iops(c), false)
    } else {
        spec_bounds(c, true)
    }
}

/// The optional rate-limit clause: `, ` followed by text up to the next `:`.
/// Never fails; when the clause is absent (or no `:` follows) the input is
/// left untouched and there is no limit.
pub open spec fn spec_rate_limit(s: Seq<char>) -> (Seq<char>, FioRateLimit) {
    if lit_at(s, 0, ", "@) {
        match find_at(s, ", "@.len() as int, ":"@) {
            Some(j) => (
                s.subrange(j, s.len() as int),
                limit_of_clause(s.subrange(", "@.len() as int, j)),
            ),
            None => (s, FioRateLimit::NoRateLimit),
        }
    } else {
        (s, FioRateLimit::NoRateLimit)
    }
}

fn rate_bounds(b: &str, speed: bool) -> (r: FioRateLimit)
    ensures
        r == spec_bounds(b@, speed),
{
    let n = b.unicode_len();
    match find_lit(b, 0, "-") {
        None => FioRateLimit::NoRateLimit,
        Some(d) => {
            let g = scan_class(b, d + "-".unicode_len(), CharClass::Graphic);
            let min_txt = b.substring_char(0, d);
            let max_txt = b.substring_char(d + "-".unicode_len(), g);
            let mn = if speed {
                parse_speed_str(min_txt)
            } else {
                parse_iops_str(min_txt)
            };
            let mx = if speed {
                parse_speed_str(max_txt)
            } else {
                parse_iops_str(max_txt)
            };
            match (mn, mx) {
                (Some(a), Some(z)) => if speed {
                    FioRateLimit::SpeedLimit { min: a, max: z }
                } else {
                    FioRateLimit::IOPSLimit { min: a, max: z }
                },
                _ => FioRateLimit::NoRateLimit,
            }
        },
    }
}

fn ends_with_iops_exec(c: &str) -> (r: bool)
    ensures
        r == ends_with_iops(c@),
{
    let m = c.unicode_len();
    if m < 5 {
        return false;
    }
    c.get_char(m - 5) == ' ' && c.get_char(m - 4) == 'I' && c.get_char(m - 3) == 'O' && c.get_char(
        m - 2,
    ) == 'P' && c.get_char(m - 1) == 'S'
}

fn limit_of_clause_exec(c: &str) -> (r: FioRateLimit)
    ensures
        r == limit_of_clause(c@),
{
    if !ends_with_iops_exec(c) {
        return rate_bounds(c, true);
    }
    let mut end = c.unicode_len();
    proof {
        assert(c@.subrange(0, end as int) =~= c@);
    }
    loop
        invariant
            end <= c@.len(),
            trim_iops(c@) == trim_iops(c@.subrange(0, end as int)),
        ensures
            end <= c@.len(),
            trim_iops(c@) == c@.subrange(0, end as int),
        decreases end,
    {
        let prefix = c.substring_char(0, end);
        if !ends_with_iops_exec(prefix) {
            break ;
        }
        proof {
            assert(c@.subrange(0, end as int).subrange(0, end - 5) =~= c@.subrange(0, end - 5));
        }
        end = end - 5;
    }
    let body = c.substring_char(0, end);
    rate_bounds(body, false)
}

/// Parses the optional rate-limit clause. A line with no `, ` clause (and a
/// present clause that no `:` terminates) yields no limit and leaves the
/// input untouched; a present but malformed clause also degrades to no
/// limit rather than failing.
pub fn parse_rate_limit(input: &str) -> (r: (&str, FioRateLimit))
    ensures
        (r.0@, r.1) == spec_rate_limit(input@),
        !lit_at(input@, 0, ", "@) ==> r.1 == FioRateLimit::NoRateLimit && r.0@ == input@,
{
    if !match_lit(input, 0, ", ") {
        return (input, FioRateLimit::NoRateLimit);
    }
    let n = input.unicode_len();
    let start = ", ".unicode_len();
    match find_lit(input, start, ":") {
        None => (input, FioRateLimit::NoRateLimit),
        Some(j) => {
            let clause = input.substring_char(start, j);
            let limit = limit_of_clause_exec(clause);
            (input.substring_char(j, n), limit)
        },
    }
}

// ----------------------------------------------------------------------------
// Comma block: `<letter>=<value>` entries separated by `,`, shared by the
// speed and IOPS blocks through a value-semantics parameter
// ----------------------------------------------------------------------------
/// Which value semantics a comma block carries: byte-per-second speeds
/// (trailing `/s` stripped) or plain IOPS magnitudes.
#[derive(Debug, Clone, Copy, PartialEq, Eq)]
pub enum BlockValue {
    Speed,
    Iops,
}

/// The quantity one entry's value text denotes under the given semantics;
/// absent if the text is not such a quantity (the entry is then dropped).
pub open spec fn spec_block_value(kind: BlockValue, txt: Seq<char>) -> Option<u64> {
    match kind {
        BlockValue::Speed => bytes_of(strip_per_sec(txt)),
        BlockValue::Iops => bytes_of(txt),
    }
}

/// One `<letter>=<value>` entry: any tag character, `=`, then the maximal
/// run of alphanumeric-or-`/` characters as the raw value text.
pub open spec fn spec_block_entry(s: Seq<char>) -> Option<(Seq<char>, (char, Seq<char>))> {
    if s.len() >= 2 && s[1] == '=' {
        let l = run_end(s, 2, CharClass::AlnumSlash);
        Some((s.subrange(l, s.len() as int), (s[0], s.subrange(2, l))))
    } else {
        None
    }
}

/// Zero or more further entries, each preceded by `,`.
pub open spec fn spec_block_rest(s: Seq<char>) -> (Seq<char>, Seq<(char, Seq<char>)>)
    decreases s.len(),
{
    if s.len() >= 1 && s[0] == ',' {
        match spec_block_entry(s.subrange(1, s.len() as int)) {
            Some((r, e)) => if r.len() < s.len() {
                let t = spec_block_rest(r);
                (t.0, seq![e] + t.1)
            } else {
                (s, Seq::<(char, Seq<char>)>::empty())
            },
            None => (s, Seq::<(char, Seq<char>)>::empty()),
        }
    } else {
        (s, Seq::<(char, Seq<char>)>::empty())
    }
}

/// One or more entries separated by `,`.
pub open spec fn spec_block_list1(s: Seq<char>) -> Option<(Seq<char>, Seq<(char, Seq<char>)>)> {
    match spec_block_entry(s) {
        None => None,
        Some((r, e)) => {
            let t = spec_block_rest(r);
            Some((t.0, seq![e] + t.1))
        },
    }
}

/// The `(read, write, trim)` slots that a sequence of entries fills, left to
/// right: `r`/`w`/`t` select a slot (a later entry overwrites an earlier
/// one), other letters and undecodable values are dropped.
pub open spec fn spec_triple(entries: Seq<(char, Seq<char>)>, kind: BlockValue) -> (
    Option<u64>,
    Option<u64>,
    Option<u64>,
)
    decreases entries.len(),
{
    if entries.len() == 0 {
        (None, None, None)
    } else {
        let p = spec_triple(entries.drop_last(), kind);
        let e = entries.last();
        match spec_block_value(kind, e.1) {
            None => p,
            Some(v) => if e.0 == 'r' {
                (Some(v), p.1, p.2)
            } else if e.0 == 'w' {
                (p.0, Some(v), p.2)
            } else if e.0 == 't' {
                (p.0, p.1, Some(v))
            } else {
                p
            },
        }
    }
}

fn block_entry(s: &str) -> (r: Option<(&str, (char, &str))>)
    ensures
        match r {
            Some((rest, e)) => (spec_block_entry(s@) matches Some((rr, raw)) && rest@ == rr && e.0
                == raw.0 && e.1@ == raw.1) && rest@.len() < s@.len(),
            None => spec_block_entry(s@) is None,
        },
{
    let n = s.unicode_len();
    if n < 2 {
        return None;
    }
    let c = s.get_char(0);
    if s.get_char(1) != '=' {
        return None;
    }
    let l = scan_class(s, 2, CharClass::AlnumSlash);
    let val = s.substring_char(2, l);
    let rest = s.substring_char(l, n);
    Some((rest, (c, val)))
}

fn block_value(kind: BlockValue, val: &str) -> (r: Option<u64>)
    ensures
        r == spec_block_value(kind, val@),
{
    match kind {
        BlockValue::Speed => parse_speed_str(val),
        BlockValue::Iops => parse_iops_str(val),
    }
}

/// Parses one or more comma-separated `<letter>=<value>` entries into
/// `(read, write, trim)` slots, with the value semantics chosen by `kind`.
fn parse_comma_pair(input: &str, kind: BlockValue) -> (r: Result<
    (&str, (Option<u64>, Option<u64>, Option<u64>)),
    ParseError,
>)
    ensures
        match r {
            Ok((rest, t)) => (spec_block_list1(input@) matches Some((rr, es)) && rest@ == rr && t
                == spec_triple(es, kind)),
            Err(_) => spec_block_list1(input@) is None,
        },
{
    let first = match block_entry(input) {
        Some(x) => x,
        None => {
            return Err(ParseError { fault: ParseFault::Literal, at: 0 });
        },
    };
    let mut cur: &str = first.0;
    let ghost mut raw: Seq<(char, Seq<char>)> = seq![(first.1.0, first.1.1@)];
    let mut read: Option<u64> = None;
    let mut write: Option<u64> = None;
    let mut trim: Option<u64> = None;
    match block_value(kind, first.1.1) {
        Some(v) => {
            if first.1.0 == 'r' {
                read = Some(v);
            } else if first.1.0 == 'w' {
                write = Some(v);
            } else if first.1.0 == 't' {
                trim = Some(v);
            }
        },
        None => {},
    }
    proof {
        assert(raw.drop_last() =~= Seq::<(char, Seq<char>)>::empty());
        assert(spec_triple(raw.drop_last(), kind) == (
            None::<u64>,
            None::<u64>,
            None::<u64>,
        ));
        assert(raw.last() == (first.1.0, first.1.1@));
        assert((read, write, trim) == spec_triple(raw, kind));
    }
    loop
        invariant
            spec_block_list1(input@) == Some((spec_block_rest(cur@).0, raw + spec_block_rest(cur@).1)),
            (read, write, trim) == spec_triple(raw, kind),
        ensures
            spec_block_list1(input@) == Some((cur@, raw)),
            (read, write, trim) == spec_triple(raw, kind),
        decreases cur@.len(),
    {
        let n = cur.unicode_len();
        if n == 0 {
            proof {
                assert(raw + spec_block_rest(cur@).1 =~= raw);
            }
            break ;
        }
        if cur.get_char(0) != ',' {
            proof {
                assert(raw + spec_block_rest(cur@).1 =~= raw);
            }
            break ;
        }
        let tail = cur.substring_char(1, n);
        match block_entry(tail) {
            None => {
                proof {
                    assert(raw + spec_block_rest(cur@).1 =~= raw);
                }
                break ;
            },
            Some((rest2, e2)) => {
                match block_value(kind, e2.1) {
                    Some(v) => {
                        if e2.0 == 'r' {
                            read = Some(v);
                        } else if e2.0 == 'w' {
                            write = Some(v);
                        } else if e2.0 == 't' {
                            trim = Some(v);
                        }
                    },
                    None => {},
                }
                proof {
                    let t = spec_block_rest(rest2@);
                    assert(spec_block_rest(cur@) == (t.0, seq![(e2.0, e2.1@)] + t.1));
                    assert(raw + (seq![(e2.0, e2.1@)] + t.1) =~= (raw + seq![(e2.0, e2.1@)])
                        + t.1);
                    let raw2 = raw + seq![(e2.0, e2.1@)];
                    assert(raw2.drop_last() =~= raw);
                    raw = raw2;
                }
                cur = rest2;
            },
        }
    }
    Ok((cur, (read, write, trim)))
}

// ----------------------------------------------------------------------------
// Speed and IOPS blocks
// ----------------------------------------------------------------------------
/// The bracketed speed block `[r=...,w=...]`.
pub open spec fn spec_speed(s: Seq<char>) -> Option<(Seq<char>, FioSpeed)> {
    match spec_tag(s, "["@) {
        None => None,
        Some(s1) => match spec_block_list1(s1) {
            None => None,
            Some((r, es)) => match spec_tag(r, "]"@) {
                None => None,
                Some(r2) => Some(
                    (
                        r2,
                        ({
                            let t = spec_triple(es, BlockValue::Speed);
                            FioSpeed { read: t.0, write: t.1, trim: t.2 }
                        }),
                    ),
                ),
            },
        },
    }
}

/// The bracketed IOPS block `[r=...,w=... IOPS]`.
pub open spec fn spec_iops(s: Seq<char>) -> Option<(Seq<char>, FioIOPS)> {
    match spec_tag(s, "["@) {
        None => None,
        Some(s1) => match spec_block_list1(s1) {
            None => None,
            Some((r, es)) => {
                let l = run_end(r, 0, CharClass::Space);
                if l >= 1 {
                    match spec_tag(r.subrange(l, r.len() as int), "IOPS]"@) {
                        None => None,
                        Some(r2) => Some(
                            (
                                r2,
                                ({
                                    let t = spec_triple(es, BlockValue::Iops);
                                    FioIOPS { read: t.0, write: t.1, trim: t.2 }
                                }),
                            ),
                        ),
                    }
                } else {
                    None
                }
            },
        },
    }
}

/// Parses a speed block.
pub fn parse_speed(input: &str) -> (r: Result<(&str, FioSpeed), ParseError>)
    ensures
        match r {
            Ok((rest, sp)) => spec_speed(input@) == Some((rest@, sp)),
            Err(_) => spec_speed(input@) is None,
        },
{
    let s1 = match take_tag(input, "[") {
        Some(x) => x,
        None => {
            return Err(ParseError { fault: ParseFault::Literal, at: 0 });
        },
    };
    let (r1, t) = match parse_comma_pair(s1, BlockValue::Speed) {
        Ok(x) => x,
        Err(e) => {
            return Err(e);
        },
    };
    match take_tag(r1, "]") {
        Some(rest) => Ok((rest, FioSpeed { read: t.0, write: t.1, trim: t.2 })),
        None => Err(ParseError { fault: ParseFault::Literal, at: 0 }),
    }
}

/// Parses an IOPS block.
pub fn parse_iops(input: &str) -> (r: Result<(&str, FioIOPS), ParseError>)
    ensures
        match r {
            Ok((rest, io)) => spec_iops(input@) == Some((rest@, io)),
            Err(_) => spec_iops(input@) is None,
        },
{
    let s1 = match take_tag(input, "[") {
        Some(x) => x,
        None => {
            return Err(ParseError { fault: ParseFault::Literal, at: 0 });
        },
    };
    let (r1, t) = match parse_comma_pair(s1, BlockValue::Iops) {
        Ok(x) => x,
        Err(e) => {
            return Err(e);
        },
    };
    let m = r1.unicode_len();
    let l = scan_class(r1, 0, CharClass::Space);
    if l == 0 {
        return Err(ParseError { fault: ParseFault::Literal, at: 0 });
    }
    let tail = r1.substring_char(l, m);
    match take_tag(tail, "IOPS]") {
        Some(rest) => Ok((rest, FioIOPS { read: t.0, write: t.1, trim: t.2 })),
        None => Err(ParseError { fault: ParseFault::Literal, at: 0 }),
    }
}

/// Between the percentage and the ETA the line carries either a
/// `[speed][iops]` pair or nothing at all: the span up to the `[eta` token,
/// parsed as the two blocks when non-empty, empty triples when empty.
pub open spec fn spec_speed_iops(s: Seq<char>) -> Option<(Seq<char>, (FioSpeed, FioIOPS))> {
    match find_at(s, 0, "[eta"@) {
        None => None,
        Some(j) => if j == 0 {
            Some(
                (
                    s,
                    (
                        FioSpeed { read: None, write: None, trim: None },
                        FioIOPS { read: None, write: None, trim: None },
                    ),
                ),
            )
        } else {
            let chunk = s.subrange(0, j);
            match spec_speed(chunk) {
                None => None,
                Some((r1, sp)) => match spec_iops(r1) {
                    None => None,
                    Some((_, io)) => Some((s.subrange(j, s.len() as int), (sp, io))),
                },
            }
        },
    }
}

/// Parses the optional `[speed][iops]` pair. A line whose throughput span is
/// empty (the `[eta` token follows at once) parses to empty triples without
/// touching the input; the span's absence is no failure.
pub fn parse_speed_iops(input: &str) -> (r: Result<(&str, (FioSpeed, FioIOPS)), ParseError>)
    ensures
        match r {
            Ok((rest, t)) => spec_speed_iops(input@) == Some((rest@, t)),
            Err(_) => spec_speed_iops(input@) is None,
        },
        find_at(input@, 0, "[eta"@) == Some(0int) ==> (r matches Ok((rest, t)) && rest@ == input@
            && t.0 == (FioSpeed { read: None, write: None, trim: None }) && t.1 == (FioIOPS {
            read: None,
            write: None,
            trim: None,
        })),
{
    let n = input.unicode_len();
    match find_lit(input, 0, "[eta") {
        None => Err(ParseError { fault: ParseFault::Delimiter, at: 0 }),
        Some(j) => {
            if j == 0 {
                return Ok(
                    (
                        input,
                        (
                            FioSpeed { read: None, write: None, trim: None },
                            FioIOPS { read: None, write: None, trim: None },
                        ),
                    ),
                );
            }
            let chunk = input.substring_char(0, j);
            let (r1, sp) = match parse_speed(chunk) {
                Ok(x) => x,
                Err(e) => {
                    return Err(e);
                },
            };
            let io = match parse_iops(r1) {
                Ok((_, io)) => io,
                Err(e) => {
                    return Err(e);
                },
            };
            Ok((input.substring_char(j, n), (sp, io)))
        },
    }
}

// ----------------------------------------------------------------------------
// ETA duration: `<integer><unit-char>` pairs separated by `:`
// ----------------------------------------------------------------------------
/// One `<integer><unit-char>` pair.
pub open spec fn spec_eta_entry(s: Seq<char>) -> Option<(Seq<char>, (u32, char))> {
    match spec_parse_u32(s) {
        None => None,
        Some((r, t)) => if r.len() >= 1 {
            Some((r.subrange(1, r.len() as int), (t, r[0])))
        } else {
            None
        },
    }
}

/// Zero or more further pairs, each preceded by `:`.
pub open spec fn spec_eta_rest(s: Seq<char>) -> (Seq<char>, Seq<(u32, char)>)
    decreases s.len(),
{
    if s.len() >= 1 && s[0] == ':' {
        match spec_eta_entry(s.subrange(1, s.len() as int)) {
            Some((r, e)) => if r.len() < s.len() {
                let t = spec_eta_rest(r);
                (t.0, seq![e] + t.1)
            } else {
                (s, Seq::<(u32, char)>::empty())
            },
            None => (s, Seq::<(u32, char)>::empty()),
        }
    } else {
        (s, Seq::<(u32, char)>::empty())
    }
}

/// One or more pairs separated by `:`.
pub open spec fn spec_eta_list1(s: Seq<char>) -> Option<(Seq<char>, Seq<(u32, char)>)> {
    match spec_eta_entry(s) {
        None => None,
        Some((r, e)) => {
            let t = spec_eta_rest(r);
            Some((t.0, seq![e] + t.1))
        },
    }
}

/// What one reduction step scales the running total by: a day is 24 of the
/// next unit, every other unit is 60 of the next.
pub open spec fn spec_unit_multiplier(u: char) -> int {
    if u == 'd' {
        24
    } else {
        60
    }
}

/// The exact second count of a pair sequence, reduced left to right: each
/// step scales the running total by the current pair's unit multiplier and
/// adds the next pair's number. In a well-formed line the terminal unit is
/// `s`, so the total is in seconds.
pub open spec fn eta_exact(entries: Seq<(u32, char)>) -> int
    decreases entries.len(),
{
    if entries.len() == 0 {
        0
    } else if entries.len() == 1 {
        entries[0].0 as int
    } else {
        eta_exact(entries.drop_last()) * spec_unit_multiplier(entries[entries.len() - 2].1)
            + entries.last().0
    }
}

/// A nonnegative total clamped into `u64`.
pub open spec fn clip_u64(x: int) -> u64 {
    if x > u64::MAX {
        u64::MAX
    } else if x < 0 {
        0
    } else {
        x as u64
    }
}

pub proof fn lemma_eta_exact_nonneg(entries: Seq<(u32, char)>)
    ensures
        eta_exact(entries) >= 0,
    decreases entries.len(),
{
    if entries.len() >= 2 {
        lemma_eta_exact_nonneg(entries.drop_last());
        let x = eta_exact(entries.drop_last());
        let m = spec_unit_multiplier(entries[entries.len() - 2].1);
        assert(x * m >= 0) by (nonlinear_arith)
            requires
                x >= 0,
                m >= 1,
        ;
    }
}

/// One saturating reduction step agrees with clamping the exact total.
proof fn lemma_clip_mul_add(x: int, m: int, t: int)
    requires
        x >= 0,
        1 <= m,
        0 <= t <= u64::MAX,
    ensures
        ({
            let a = clip_u64(x) as int;
            let p = if a * m > u64::MAX { u64::MAX as int } else { a * m };
            let q = if p + t > u64::MAX { u64::MAX as int } else { p + t };
            q == clip_u64(x * m + t) as int
        }),
{
    let a = clip_u64(x) as int;
    assert(x * m >= x) by (nonlinear_arith)
        requires
            x >= 0,
            m >= 1,
    ;
    assert(a * m >= a) by (nonlinear_arith)
        requires
            a >= 0,
            m >= 1,
    ;
    if x <= u64::MAX {
        assert(a == x);
    } else {
        assert(a == u64::MAX as int);
        assert(x * m + t > u64::MAX);
    }
}

/// The ETA field: the pair list reduced to seconds, saturating at
/// `u64::MAX`, as a duration.
pub open spec fn spec_parse_eta_time(s: Seq<char>) -> Option<(Seq<char>, core::time::Duration)> {
    match spec_eta_list1(s) {
        None => None,
        Some((r, es)) => Some((r, duration_of_secs(clip_u64(eta_exact(es))))),
    }
}

fn eta_entry(s: &str) -> (r: Option<(&str, (u32, char))>)
    ensures
        match r {
            Some((rest, e)) => spec_eta_entry(s@) == Some((rest@, e)) && rest@.len() < s@.len(),
            None => spec_eta_entry(s@) is None,
        },
{
    match parse_u32(s) {
        Err(_) => None,
        Ok((r1, v)) => {
            let m = r1.unicode_len();
            if m == 0 {
                return None;
            }
            let u = r1.get_char(0);
            let rest = r1.substring_char(1, m);
            proof {
                crate::utils::lemma_parse_u32_shrinks(s@);
            }
            Some((rest, (v, u)))
        },
    }
}

/// Parses the colon-separated duration, reducing the pairs left to right to
/// a second count (saturating at `u64::MAX`).
pub fn parse_eta_time(input: &str) -> (r: Result<(&str, core::time::Duration), ParseError>)
    ensures
        match r {
            Ok((rest, d)) => spec_parse_eta_time(input@) == Some((rest@, d)),
            Err(_) => spec_parse_eta_time(input@) is None,
        },
{
    let first = match eta_entry(input) {
        Some(x) => x,
        None => {
            return Err(ParseError { fault: ParseFault::Integer, at: 0 });
        },
    };
    let mut cur: &str = first.0;
    let ghost mut es: Seq<(u32, char)> = seq![first.1];
    let mut acc: u64 = first.1.0 as u64;
    let mut unit: char = first.1.1;
    proof {
        assert(eta_exact(es) == first.1.0 as int);
    }
    loop
        invariant
            es.len() >= 1,
            acc == clip_u64(eta_exact(es)),
            unit == es.last().1,
            spec_eta_list1(input@) == Some((spec_eta_rest(cur@).0, es + spec_eta_rest(cur@).1)),
        ensures
            spec_eta_list1(input@) == Some((cur@, es)),
            acc == clip_u64(eta_exact(es)),
        decreases cur@.len(),
    {
        let n = cur.unicode_len();
        if n == 0 {
            proof {
                assert(es + spec_eta_rest(cur@).1 =~= es);
            }
            break ;
        }
        if cur.get_char(0) != ':' {
            proof {
                assert(es + spec_eta_rest(cur@).1 =~= es);
            }
            break ;
        }
        let tail = cur.substring_char(1, n);
        match eta_entry(tail) {
            None => {
                proof {
                    assert(es + spec_eta_rest(cur@).1 =~= es);
                }
                break ;
            },
            Some((rest2, e2)) => {
                let m: u64 = if unit == 'd' {
                    24
                } else {
                    60
                };
                let scaled = match acc.checked_mul(m) {
                    Some(p) => p,
                    None => u64::MAX,
                };
                let next = scaled.saturating_add(e2.0 as u64);
                proof {
                    let t = spec_eta_rest(rest2@);
                    assert(spec_eta_rest(cur@) == (t.0, seq![e2] + t.1));
                    assert(es + (seq![e2] + t.1) =~= (es + seq![e2]) + t.1);
                    let es2 = es.push(e2);
                    assert(es + seq![e2] =~= es2);
                    assert(es2.drop_last() =~= es);
                    assert(es2[es2.len() - 2] == es.last());
                    lemma_eta_exact_nonneg(es);
                    lemma_clip_mul_add(
                        eta_exact(es),
                        spec_unit_multiplier(unit),
                        e2.0 as int,
                    );
                    assert(eta_exact(es2) == eta_exact(es) * spec_unit_multiplier(unit)
                        + e2.0);
                    es = es2;
                }
                acc = next;
                unit = e2.1;
                cur = rest2;
            },
        }
    }
    let d = crate::outside::duration_from_secs(acc);
    Ok((cur, d))
}

// ----------------------------------------------------------------------------
// The line
// ----------------------------------------------------------------------------
/// The whole line: the fixed sub-parser sequence
/// `"Jobs: " u32 " (f=" u32 ")" [rate-limit] ": " status-list "["
/// percentage "]" [speed+iops] "[eta " duration "]"`,
/// yielding the record and the unconsumed remainder. Any mandatory literal
/// or sub-parse failing fails the whole line; the optional parts (rate
/// limit, readable percentage, throughput span) degrade to their defaults.
pub open spec fn spec_parse_eta_line(s: Seq<char>) -> Option<(Seq<char>, FioEtaLine)> {
    match spec_tag(s, "Jobs: "@) {
        None => None,
        Some(s1) => match spec_parse_u32(s1) {
            None => None,
            Some((s2, jobs)) => match spec_tag(s2, " (f="@) {
                None => None,
                Some(s3) => match spec_parse_u32(s3) {
                    None => None,
                    Some((s4, files)) => match spec_tag(s4, ")"@) {
                        None => None,
                        Some(s5) => {
                            let (s6, rate) = spec_rate_limit(s5);
                            match spec_tag(s6, ": "@) {
                                None => None,
                                Some(s7) => match spec_job_statuses(s7) {
                                    None => None,
                                    Some((s8, statuses)) => match spec_tag(s8, "["@) {
                                        None => None,
                                        Some(s9) => match spec_percentage(s9) {
                                            None => None,
                                            Some((s10, progress)) => match spec_tag(s10, "]"@) {
                                                None => None,
                                                Some(s11) => match spec_speed_iops(s11) {
                                                    None => None,
                                                    Some((s12, pair)) => match spec_tag(
                                                        s12,
                                                        "[eta "@,
                                                    ) {
                                                        None => None,
                                                        Some(s13) => match spec_parse_eta_time(
                                                            s13,
                                                        ) {
                                                            None => None,
                                                            Some((s14, eta)) => match spec_tag(
                                                                s14,
                                                                "]"@,
                                                            ) {
                                                                None => None,
                                                                Some(s15) => Some(
                                                                    (
                                                                        s15,
                                                                        FioEtaLine {
                                                                            jobs_unfinished: jobs,
                                                                            opened_files: files,
                                                                            rate_limit: rate,
                                                                            job_statuses: statuses,
                                                                            progress_percentage:
                                                                                progress,
                                                                            speed: pair.0,
                                                                            iops: pair.1,
                                                                            eta: eta,
                                                                        },
                                                                    ),
                                                                ),
                                                            },
                                                        },
                                                    },
                                                },
                                            },
                                        },
                                    },
                                },
                            }
                        },
                    },
                },
            },
        },
    }
}

fn lit_fault(total: usize, cur: &str) -> ParseError {
    ParseError { fault: ParseFault::Literal, at: total.saturating_sub(cur.unicode_len()) }
}

fn shift_fault(e: ParseError, total: usize, cur: &str) -> ParseError {
    ParseError {
        fault: e.fault,
        at: total.saturating_sub(cur.unicode_len()).saturating_add(e.at),
    }
}

/// Parses one status line into a structured record plus the unconsumed
/// remainder. The result is a function of the line's text alone: the same
/// text always yields the same record.
pub fn parse_eta_line(input: &str) -> (r: Result<(&str, FioEtaLine), ParseError>)
    ensures
        match r {
            Ok((rest, line)) => spec_parse_eta_line(input@) == Some((rest@, line)),
            Err(_) => spec_parse_eta_line(input@) is None,
        },
{
    let n = input.unicode_len();
    let s1 = match take_tag(input, "Jobs: ") {
        Some(x) => x,
        None => {
            return Err(lit_fault(n, input));
        },
    };
    let (s2, jobs) = match parse_u32(s1) {
        Ok(x) => x,
        Err(e) => {
            return Err(shift_fault(e, n, s1));
        },
    };
    let s3 = match take_tag(s2, " (f=") {
        Some(x) => x,
        None => {
            return Err(lit_fault(n, s2));
        },
    };
    let (s4, files) = match parse_u32(s3) {
        Ok(x) => x,
        Err(e) => {
            return Err(shift_fault(e, n, s3));
        },
    };
    let s5 = match take_tag(s4, ")") {
        Some(x) => x,
        None => {
            return Err(lit_fault(n, s4));
        },
    };
    let (s6, rate) = parse_rate_limit(s5);
    let s7 = match take_tag(s6, ": ") {
        Some(x) => x,
        None => {
            return Err(lit_fault(n, s6));
        },
    };
    let (s8, statuses) = match parse_job_statuses(s7) {
        Ok(x) => x,
        Err(e) => {
            return Err(shift_fault(e, n, s7));
        },
    };
    let s9 = match take_tag(s8, "[") {
        Some(x) => x,
        None => {
            return Err(lit_fault(n, s8));
        },
    };
    let (s10, progress) = match parse_percentage(s9) {
        Ok(x) => x,
        Err(e) => {
            return Err(shift_fault(e, n, s9));
        },
    };
    let s11 = match take_tag(s10, "]") {
        Some(x) => x,
        None => {
            return Err(lit_fault(n, s10));
        },
    };
    let (s12, pair) = match parse_speed_iops(s11) {
        Ok(x) => x,
        Err(e) => {
            return Err(shift_fault(e, n, s11));
        },
    };
    let s13 = match take_tag(s12, "[eta ") {
        Some(x) => x,
        None => {
            return Err(lit_fault(n, s12));
        },
    };
    let (s14, eta) = match parse_eta_time(s13) {
        Ok(x) => x,
        Err(e) => {
            return Err(shift_fault(e, n, s13));
        },
    };
    let s15 = match take_tag(s14, "]") {
        Some(x) => x,
        None => {
            return Err(lit_fault(n, s14));
        },
    };
    Ok(
        (
            s15,
            FioEtaLine {
                jobs_unfinished: jobs,
                opened_files: files,
                rate_limit: rate,
                job_statuses: statuses,
                progress_percentage: progress,
                speed: pair.0,
                iops: pair.1,
                eta: eta,
            },
        ),
    )
}

/// Law: the parse is deterministic. The record is a function of the line's
/// view alone — together with `parse_eta_line`'s contract, two calls on the
/// same text yield structurally equal results, with no hidden state.
pub proof fn lemma_parse_eta_line_deterministic(a: Seq<char>, b: Seq<char>)
    requires
        a == b,
    ensures
        spec_parse_eta_line(a) == spec_parse_eta_line(b),
{
}

} // verus!
