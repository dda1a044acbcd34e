use vstd::prelude::*;

use crate::error::{Error, Reason};
use crate::header::Tag;

verus! {

/// The time zone of a decoded time.
#[derive(Debug, Clone, Copy, PartialEq, Eq, Structural)]
pub enum ASN1TimeZone {
    /// No zone was given.
    Undefined,
    /// Coordinated universal time.
    Z,
    /// A sign (+1 or -1), then hours and minutes of offset.
    Offset(i8, u8, u8),
}

/// A decoded calendar date and time.
#[derive(Debug, Clone, Copy, PartialEq, Eq, Structural)]
pub struct ASN1DateTime {
    pub year: u32,
    pub month: u8,
    pub day: u8,
    pub hour: u8,
    pub minute: u8,
    pub second: u8,
    pub millisecond: Option<u16>,
    pub tz: ASN1TimeZone,
}

impl ASN1DateTime {
    pub fn new(
        year: u32,
        month: u8,
        day: u8,
        hour: u8,
        minute: u8,
        second: u8,
        millisecond: Option<u16>,
        tz: ASN1TimeZone,
    ) -> (r: ASN1DateTime)
        ensures
            r == (ASN1DateTime { year, month, day, hour, minute, second, millisecond, tz }),
    {
        ASN1DateTime { year, month, day, hour, minute, second, millisecond, tz }
    }
}

/// An ASCII decimal digit.
pub open spec fn is_digit(b: u8) -> bool {
    0x30 <= b <= 0x39
}

/// The number written by two decimal digits.
pub open spec fn digit2(hi: u8, lo: u8) -> u8 {
    ((hi - 0x30) * 10 + (lo - 0x30)) as u8
}

/// A malformed content for the type carrying `tag`.
pub open spec fn invalid_value(tag: Tag, reason: Reason) -> Error {
    Error::InvalidValue { tag, reason }
}

/// Reads a two-digit decimal number; a byte that is not a digit is an
/// invalid value of the type carrying `tag`.
pub fn decode_decimal(tag: Tag, hi: u8, lo: u8) -> (r: Result<u8, Error>)
    ensures
        r == (if is_digit(hi) && is_digit(lo) {
            Ok::<u8, Error>(digit2(hi, lo))
        } else {
            Err(invalid_value(tag, Reason::InvalidDigit))
        }),
        r matches Ok(v) ==> v <= 99,
{
    if 0x30 <= hi && hi <= 0x39 && 0x30 <= lo && lo <= 0x39 {
        Ok((hi - 0x30) * 10 + (lo - 0x30))
    } else {
        Err(Error::InvalidValue { tag, reason: Reason::InvalidDigit })
    }
}

/// The two ASCII digits of a number below 100, zero-padded.
pub open spec fn two_digits(v: u8) -> Seq<u8> {
    seq![(0x30 + v / 10) as u8, (0x30 + v % 10) as u8]
}

/// Writing a number below 100 as two digits and reading them back gives it.
pub proof fn lemma_two_digits(v: u8)
    requires
        v <= 99,
    ensures
        is_digit(two_digits(v)[0]),
        is_digit(two_digits(v)[1]),
        digit2(two_digits(v)[0], two_digits(v)[1]) == v,
{
}

/// Appends the two digits of `v`.
pub fn push_two_digits(v: u8, out: &mut Vec<u8>)
    requires
        v <= 99,
    ensures
        final(out)@ == old(out)@ + two_digits(v),
{
    out.push(0x30 + v / 10);
    out.push(0x30 + v % 10);
    assert(final(out)@ =~= old(out)@ + two_digits(v));
}

} // verus!
