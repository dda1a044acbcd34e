use vstd::prelude::*;

use crate::any::{lemma_any_round_trip, spec_any_parse, Any};
use crate::datetime::{
    decode_decimal, digit2, invalid_value, is_digit, lemma_two_digits, push_two_digits, two_digits,
    ASN1DateTime, ASN1TimeZone,
};
use crate::error::{Error, Reason};
use crate::header::{Header, Tag, TAG_UTC_TIME};

verus! {

/// A UTCTime: a date with a two-digit year, a time and a zone.
#[derive(Debug, Clone, Copy, PartialEq, Eq, Structural)]
pub struct UtcTime(pub ASN1DateTime);

/// A malformed UTCTime content.
pub open spec fn utc_invalid(reason: Reason) -> Error {
    invalid_value(Tag(TAG_UTC_TIME), reason)
}

/// The two digits of `s` at `i` and `i + 1`.
pub open spec fn pair_digits(s: Seq<u8>, i: int) -> bool {
    is_digit(s[i]) && is_digit(s[i + 1])
}

/// The number of `s` at `i` and `i + 1`.
pub open spec fn pair(s: Seq<u8>, i: int) -> u8 {
    digit2(s[i], s[i + 1])
}

/// The zone at the end of a time: `Z`, or a sign then `hhmm`.
pub open spec fn spec_zone(z: Seq<u8>) -> Result<ASN1TimeZone, Error> {
    if z == seq![0x5au8] {
        Ok(ASN1TimeZone::Z)
    } else if z.len() == 5 && (z[0] == 0x2b || z[0] == 0x2d) {
        if pair_digits(z, 1) && pair_digits(z, 3) {
            Ok(ASN1TimeZone::Offset(if z[0] == 0x2b { 1i8 } else { -1i8 }, pair(z, 1), pair(z, 3)))
        } else {
            Err(utc_invalid(Reason::InvalidDigit))
        }
    } else {
        Err(utc_invalid(Reason::NoTimeZone))
    }
}

/// Seconds are present when at least two bytes follow the minutes and the
/// first of them is a digit.
pub open spec fn has_seconds(s: Seq<u8>) -> bool {
    s.len() >= 12 && is_digit(s[10])
}

/// What follows the seconds, or the minutes where there are no seconds.
pub open spec fn zone_part(s: Seq<u8>) -> Seq<u8> {
    if has_seconds(s) {
        s.subrange(12, s.len() as int)
    } else {
        s.subrange(10, s.len() as int)
    }
}

/// The decode of `YYMMDD(hhmm|hhmmss)(Z|[+-]hhmm)`.
pub open spec fn spec_utc_parse(s: Seq<u8>) -> Result<UtcTime, Error> {
    if s.len() < 10 {
        Err(utc_invalid(Reason::NotYyMmDdHhMm))
    } else if !(pair_digits(s, 0) && pair_digits(s, 2) && pair_digits(s, 4) && pair_digits(s, 6)
        && pair_digits(s, 8)) {
        Err(utc_invalid(Reason::InvalidDigit))
    } else if s.len() == 10 {
        Err(utc_invalid(Reason::MalformedTime))
    } else if has_seconds(s) && !is_digit(s[11]) {
        Err(utc_invalid(Reason::InvalidDigit))
    } else {
        let second: u8 = if has_seconds(s) {
            pair(s, 10)
        } else {
            0
        };
        if pair(s, 2) > 12 || pair(s, 4) > 31 || pair(s, 6) > 23 || pair(s, 8) > 59 || second > 59 {
            Err(utc_invalid(Reason::InvalidComponents))
        } else if zone_part(s).len() == 0 {
            Err(utc_invalid(Reason::MalformedTime))
        } else {
            match spec_zone(zone_part(s)) {
                Ok(tz) => Ok(
                    UtcTime(
                        ASN1DateTime {
                            year: pair(s, 0) as u32,
                            month: pair(s, 2),
                            day: pair(s, 4),
                            hour: pair(s, 6),
                            minute: pair(s, 8),
                            second,
                            millisecond: None,
                            tz,
                        },
                    ),
                ),
                Err(e) => Err(e),
            }
        }
    }
}

/// Every byte is visible ASCII, as a VisibleString requires.
pub open spec fn all_visible(s: Seq<u8>) -> bool {
    forall|i: int| 0 <= i < s.len() ==> 0x20 <= #[trigger] s[i] <= 0x7f
}

/// The decode of a UTCTime from a header and its content.
pub open spec fn spec_utc_from(h: Header, d: Seq<u8>) -> Result<UtcTime, Error> {
    if h.tag != Tag(TAG_UTC_TIME) {
        Err(Error::UnexpectedTag { expected: Tag(TAG_UTC_TIME), actual: h.tag })
    } else if !all_visible(d) {
        Err(Error::StringInvalidCharset)
    } else {
        spec_utc_parse(d)
    }
}

fn parse_zone(z: &[u8]) -> (r: Result<ASN1TimeZone, Error>)
    ensures
        r == spec_zone(z@),
{
    let tag = Tag(TAG_UTC_TIME);
    if z.len() == 1 && z[0] == 0x5a {
        assert(z@ =~= seq![0x5au8]);
        return Ok(ASN1TimeZone::Z);
    }
    assert(z@ != seq![0x5au8]);
    if z.len() == 5 && (z[0] == 0x2b || z[0] == 0x2d) {
        let hh = decode_decimal(tag, z[1], z[2])?;
        let mm = decode_decimal(tag, z[3], z[4])?;
        let sign: i8 = if z[0] == 0x2b {
            1
        } else {
            -1
        };
        Ok(ASN1TimeZone::Offset(sign, hh, mm))
    } else {
        Err(Error::InvalidValue { tag, reason: Reason::NoTimeZone })
    }
}

impl UtcTime {
    pub fn new(datetime: ASN1DateTime) -> (r: UtcTime)
        ensures
            r == UtcTime(datetime),
    {
        UtcTime(datetime)
    }

    /// Parses the content of a UTCTime; the two-digit year is kept as it is.
    pub fn from_bytes(bytes: &[u8]) -> (r: Result<UtcTime, Error>)
        ensures
            r == spec_utc_parse(bytes@),
    {
        let tag = Tag(TAG_UTC_TIME);
        let s = bytes;
        if s.len() < 10 {
            return Err(Error::InvalidValue { tag, reason: Reason::NotYyMmDdHhMm });
        }
        let year = decode_decimal(tag, s[0], s[1])?;
        let month = decode_decimal(tag, s[2], s[3])?;
        let day = decode_decimal(tag, s[4], s[5])?;
        let hour = decode_decimal(tag, s[6], s[7])?;
        let minute = decode_decimal(tag, s[8], s[9])?;
        if s.len() == 10 {
            return Err(Error::InvalidValue { tag, reason: Reason::MalformedTime });
        }
        let with_seconds = s.len() >= 12 && 0x30 <= s[10] && s[10] <= 0x39;
        let second: u8 = if with_seconds {
            decode_decimal(tag, s[10], s[11])?
        } else {
            0
        };
        if month > 12 || day > 31 || hour > 23 || minute > 59 || second > 59 {
            return Err(Error::InvalidValue { tag, reason: Reason::InvalidComponents });
        }
        let start: usize = if with_seconds {
            12
        } else {
            10
        };
        let rem = vstd::slice::slice_subrange(s, start, s.len());
        assert(rem@ =~= zone_part(s@));
        if rem.len() == 0 {
            return Err(Error::InvalidValue { tag, reason: Reason::MalformedTime });
        }
        let tz = parse_zone(rem)?;
        Ok(UtcTime(ASN1DateTime::new(year as u32, month, day, hour, minute, second, None, tz)))
    }

    /// Decodes a UTCTime: the tag must match and every content byte be
    /// visible ASCII before the content is parsed.
    pub fn try_from(any: Any) -> (r: Result<UtcTime, Error>)
        ensures
            r == spec_utc_from(any.header, any.data@),
    {
        any.tag().assert_eq(Tag(TAG_UTC_TIME))?;
        let d = any.data.as_slice();
        let mut k: usize = 0;
        while k < d.len()
            invariant
                k <= d.len(),
                d@ == any.data@,
                any.header.tag == Tag(TAG_UTC_TIME),
                forall|j: int| 0 <= j < k ==> 0x20 <= #[trigger] d@[j] <= 0x7f,
            decreases d.len() - k,
        {
            if !(0x20 <= d[k] && d[k] <= 0x7f) {
                assert(!(0x20 <= d@[k as int] <= 0x7f));
                return Err(Error::StringInvalidCharset);
            }
            k = k + 1;
        }
        UtcTime::from_bytes(d)
    }

    /// DER adds nothing to what the decode checks.
    pub fn check_constraints(_any: &Any) -> (r: Result<(), Error>)
        ensures
            r == Ok::<(), Error>(()),
    {
        Ok(())
    }

    /// Every field fits two decimal digits.
    pub open spec fn fits_two_digits(self) -> bool {
        &&& self.0.year <= 99
        &&& self.0.month <= 99
        &&& self.0.day <= 99
        &&& self.0.hour <= 99
        &&& self.0.minute <= 99
        &&& self.0.second <= 99
    }

    /// The DER content: `YYMMDDhhmmssZ`, whatever zone the value held.
    pub open spec fn spec_content(self) -> Seq<u8> {
        two_digits(self.0.year as u8) + two_digits(self.0.month) + two_digits(self.0.day)
            + two_digits(self.0.hour) + two_digits(self.0.minute) + two_digits(self.0.second)
            + seq![0x5au8]
    }

    pub open spec fn spec_der(self) -> Seq<u8> {
        seq![TAG_UTC_TIME as u8, 13u8] + self.spec_content()
    }

    /// Tag, length and the thirteen content bytes.
    pub fn to_der_len(&self) -> (r: Result<usize, Error>)
        ensures
            r == Ok::<usize, Error>(15),
            r == Ok::<usize, Error>(self.spec_der().len() as usize),
    {
        Ok(15)
    }

    pub fn write_der_header(&self, out: &mut Vec<u8>) -> (r: usize)
        ensures
            final(out)@ == old(out)@ + seq![TAG_UTC_TIME as u8, 13u8],
            r == 2,
    {
        out.push(TAG_UTC_TIME as u8);
        out.push(13);
        assert(final(out)@ =~= old(out)@ + seq![TAG_UTC_TIME as u8, 13u8]);
        2
    }

    pub fn write_der_content(&self, out: &mut Vec<u8>) -> (r: usize)
        requires
            self.fits_two_digits(),
        ensures
            final(out)@ == old(out)@ + self.spec_content(),
            r == self.spec_content().len(),
    {
        let dt = &self.0;
        push_two_digits(dt.year as u8, out);
        push_two_digits(dt.month, out);
        push_two_digits(dt.day, out);
        push_two_digits(dt.hour, out);
        push_two_digits(dt.minute, out);
        push_two_digits(dt.second, out);
        out.push(0x5a);
        assert(final(out)@ =~= old(out)@ + self.spec_content());
        13
    }

    pub fn to_der(&self, out: &mut Vec<u8>) -> (r: usize)
        requires
            self.fits_two_digits(),
        ensures
            final(out)@ == old(out)@ + self.spec_der(),
            r == self.spec_der().len(),
    {
        let a = self.write_der_header(out);
        let b = self.write_der_content(out);
        assert(final(out)@ =~= old(out)@ + self.spec_der());
        a + b
    }
}

/// The zone as text: `Z` for UTC or no zone, else a sign then `hhmm`.
pub open spec fn zone_text(tz: ASN1TimeZone) -> Seq<u8> {
    match tz {
        ASN1TimeZone::Offset(sign, hh, mm) => seq![if sign > 0 { 0x2bu8 } else { 0x2du8 }]
            + two_digits(hh) + two_digits(mm),
        _ => seq![0x5au8],
    }
}

impl UtcTime {
    /// The fields fit the text form: a year of at most four digits, and two
    /// digits for each other number.
    pub open spec fn fits_text(self) -> bool {
        &&& self.0.year <= 9999
        &&& self.0.month <= 99
        &&& self.0.day <= 99
        &&& self.0.hour <= 99
        &&& self.0.minute <= 99
        &&& self.0.second <= 99
        &&& (self.0.tz matches ASN1TimeZone::Offset(_, hh, mm) ==> hh <= 99 && mm <= 99)
    }

    /// `YYYY-MM-DD hh:mm:ss` then a space and the zone.
    pub open spec fn spec_text(self) -> Seq<u8> {
        two_digits((self.0.year / 100) as u8) + two_digits((self.0.year % 100) as u8) + seq![0x2du8]
            + two_digits(self.0.month) + seq![0x2du8] + two_digits(self.0.day) + seq![0x20u8]
            + two_digits(self.0.hour) + seq![0x3au8] + two_digits(self.0.minute) + seq![0x3au8]
            + two_digits(self.0.second) + seq![0x20u8] + zone_text(self.0.tz)
    }

    /// The time as readable ASCII text.
    pub fn to_text(&self) -> (r: Vec<u8>)
        requires
            self.fits_text(),
        ensures
            r@ == self.spec_text(),
    {
        let dt = &self.0;
        let mut out: Vec<u8> = Vec::new();
        push_two_digits((dt.year / 100) as u8, &mut out);
        push_two_digits((dt.year % 100) as u8, &mut out);
        out.push(0x2d);
        push_two_digits(dt.month, &mut out);
        out.push(0x2d);
        push_two_digits(dt.day, &mut out);
        out.push(0x20);
        push_two_digits(dt.hour, &mut out);
        out.push(0x3a);
        push_two_digits(dt.minute, &mut out);
        out.push(0x3a);
        push_two_digits(dt.second, &mut out);
        out.push(0x20);
        match dt.tz {
            ASN1TimeZone::Offset(sign, hh, mm) => {
                out.push(if sign > 0 { 0x2b } else { 0x2d });
                push_two_digits(hh, &mut out);
                push_two_digits(mm, &mut out);
            },
            _ => {
                out.push(0x5a);
            },
        }
        assert(out@ =~= self.spec_text());
        out
    }
}

/// The seconds since 1970-01-01 00:00:00 of a proleptic Gregorian date and
/// time read as UTC, or nothing where that date or time does not exist.
pub uninterp spec fn naive_timestamp(
    year: int,
    month: int,
    day: int,
    hour: int,
    minute: int,
    second: int,
) -> Option<i64>;

/// Relies on chrono's `NaiveDate::from_ymd_opt`, `NaiveDate::and_hms_opt` and
/// `NaiveDateTime::and_utc` with `DateTime::timestamp`: the count of non-leap
/// seconds since the epoch, `None` where the date or the time is invalid.
/// None of these panics.
#[verifier::external_body]
fn chrono_timestamp(year: i32, month: u32, day: u32, hour: u32, minute: u32, second: u32) -> (r:
    Option<i64>)
    ensures
        r == naive_timestamp(
            year as int,
            month as int,
            day as int,
            hour as int,
            minute as int,
            second as int,
        ),
{
    let date = chrono::NaiveDate::from_ymd_opt(year, month, day)?;
    let datetime = date.and_hms_opt(hour, minute, second)?;
    Some(datetime.and_utc().timestamp())
}

impl UtcTime {
    /// The number of non-leap seconds since midnight on January 1, 1970, of
    /// the date and time as they stand (the two-digit year is taken as a year
    /// of the first century, and the zone is not applied); nothing where that
    /// calendar date or time does not exist.
    pub fn timestamp(&self) -> (r: Option<i64>)
        ensures
            r == (if self.0.year <= i32::MAX {
                naive_timestamp(
                    self.0.year as int,
                    self.0.month as int,
                    self.0.day as int,
                    self.0.hour as int,
                    self.0.minute as int,
                    self.0.second as int,
                )
            } else {
                None
            }),
    {
        let dt = &self.0;
        if dt.year > 0x7fff_ffff {
            return None;
        }
        chrono_timestamp(
            dt.year as i32,
            dt.month as u32,
            dt.day as u32,
            dt.hour as u32,
            dt.minute as u32,
            dt.second as u32,
        )
    }
}

/// The encoding of a UTCTime is always fifteen bytes: the primitive header
/// of a thirteen-byte content, and a content that ends in `Z`, whatever zone
/// the value held.
pub proof fn lemma_utc_encoding_shape(v: UtcTime)
    ensures
        v.spec_der().len() == 15,
        v.spec_content().len() == 13,
        v.spec_content()[12] == 0x5a,
        v.spec_der() == Header::new_spec_primitive(Tag(TAG_UTC_TIME), 13).spec_der()
            + v.spec_content(),
{
    assert(v.spec_der() =~= Header::new_spec_primitive(Tag(TAG_UTC_TIME), 13).spec_der()
        + v.spec_content());
}

/// A UTCTime in canonical form (fields in range, zone `Z`, no fraction)
/// reads back from its encoding, under BER and DER, as one unit of fifteen
/// bytes whose decode gives it back.
pub proof fn lemma_utc_round_trip(v: UtcTime, der: bool)
    requires
        v.0.year <= 99,
        v.0.month <= 12,
        v.0.day <= 31,
        v.0.hour <= 23,
        v.0.minute <= 59,
        v.0.second <= 59,
        v.0.tz == ASN1TimeZone::Z,
        v.0.millisecond is None,
    ensures
        spec_utc_parse(v.spec_content()) == Ok::<UtcTime, Error>(v),
        spec_any_parse(v.spec_der(), der) == Ok::<(Header, Seq<u8>, usize), Error>(
            (Header::new_spec_primitive(Tag(TAG_UTC_TIME), 13), v.spec_content(), 15usize),
        ),
        spec_utc_from(Header::new_spec_primitive(Tag(TAG_UTC_TIME), 13), v.spec_content())
            == Ok::<UtcTime, Error>(v),
{
    let s = v.spec_content();
    let h = Header::new_spec_primitive(Tag(TAG_UTC_TIME), 13);
    assert(v.spec_der() =~= h.spec_der() + s + Seq::<u8>::empty());
    lemma_any_round_trip(h, s, Seq::empty(), der);
    lemma_two_digits(v.0.year as u8);
    lemma_two_digits(v.0.month);
    lemma_two_digits(v.0.day);
    lemma_two_digits(v.0.hour);
    lemma_two_digits(v.0.minute);
    lemma_two_digits(v.0.second);
    assert(s[0] == two_digits(v.0.year as u8)[0] && s[1] == two_digits(v.0.year as u8)[1]);
    assert(s[2] == two_digits(v.0.month)[0] && s[3] == two_digits(v.0.month)[1]);
    assert(s[4] == two_digits(v.0.day)[0] && s[5] == two_digits(v.0.day)[1]);
    assert(s[6] == two_digits(v.0.hour)[0] && s[7] == two_digits(v.0.hour)[1]);
    assert(s[8] == two_digits(v.0.minute)[0] && s[9] == two_digits(v.0.minute)[1]);
    assert(s[10] == two_digits(v.0.second)[0] && s[11] == two_digits(v.0.second)[1]);
    assert(zone_part(s) =~= seq![0x5au8]);
    assert forall|i: int| 0 <= i < s.len() implies 0x20 <= #[trigger] s[i] <= 0x7f by {
        if i == 12 {
        } else {
            assert(is_digit(s[i]));
        }
    }
}

} // verus!
