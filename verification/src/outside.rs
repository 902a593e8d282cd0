//! The library's view of its two collaborator crates and of the two std
//! items that vstd gives no specification.
//!
//! Each executable function here is `external_body`: its contract names the
//! outside result through an uninterpreted spec function, so that the verified
//! parser can speak of "the decimal that this text denotes" without restating
//! the collaborator's grammar.

use vstd::prelude::*;
use core::time::Duration;
use rust_decimal::Decimal;

verus! {

#[verifier::external_type_specification]
#[verifier::external_body]
pub struct ExDecimal(Decimal);

/// The exact decimal that `rust_decimal` reads from a piece of text, if any.
pub uninterp spec fn decimal_of(s: Seq<char>) -> Option<Decimal>;

/// Relies on `rust_decimal::Decimal`'s `FromStr`: the parse depends on the
/// characters alone, and the empty string is rejected
/// (`Invalid decimal: empty`).
#[verifier::external_body]
pub(crate) fn decimal_from_str(s: &str) -> (r: Option<Decimal>)
    ensures
        r == decimal_of(s@),
        s@.len() == 0 ==> r is None,
{
    s.parse::<Decimal>().ok()
}

/// The byte count that `byte_unit` reads from a magnitude-with-suffix text
/// (`"2048KiB"`, `"1883k"`, `"256"`), if any.
pub uninterp spec fn bytes_of(s: Seq<char>) -> Option<u64>;

/// Relies on `byte_unit::Byte`'s `FromStr` (`Byte::parse_str`) together with
/// `Byte::as_u64`: the parse depends on the characters alone, and `as_u64`
/// hands back the stored byte count.
#[verifier::external_body]
pub(crate) fn byte_from_str(s: &str) -> (r: Option<u64>)
    ensures
        r == bytes_of(s@),
{
    s.parse::<byte_unit::Byte>().ok().map(|b| b.as_u64())
}

/// Whether a character is alphanumeric in the Unicode sense.
pub uninterp spec fn alnum_char(c: char) -> bool;

/// Relies on `char::is_alphanumeric`, a property of the character alone;
/// vstd gives it no specification.
#[verifier::external_body]
pub(crate) fn char_is_alphanumeric(c: char) -> (r: bool)
    ensures
        r == alnum_char(c),
{
    c.is_alphanumeric()
}

/// Relies on `rust_decimal::Decimal`'s derived `Clone` on a `Copy` type:
/// cloning hands back the same value.
pub assume_specification[ <rust_decimal::Decimal as Clone>::clone ](
    d: &rust_decimal::Decimal,
) -> (r: rust_decimal::Decimal)
    ensures
        r == *d,
;

/// Relies on `core::time::Duration`'s derived `Clone` on a `Copy` type:
/// cloning hands back the same value.
pub assume_specification[ <core::time::Duration as Clone>::clone ](
    d: &core::time::Duration,
) -> (r: core::time::Duration)
    ensures
        r == *d,
;

/// The duration that stands for a whole number of seconds.
pub uninterp spec fn duration_of_secs(secs: u64) -> Duration;

/// Relies on `core::time::Duration::from_secs`, a deterministic constructor;
/// vstd declares the type but gives the constructor no specification.
#[verifier::external_body]
pub(crate) fn duration_from_secs(secs: u64) -> (d: Duration)
    ensures
        d == duration_of_secs(secs),
{
    Duration::from_secs(secs)
}

} // verus!
