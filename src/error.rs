use vstd::prelude::*;

use crate::header::Tag;

verus! {

/// Why a content was found malformed.
#[derive(Debug, Clone, Copy, PartialEq, Eq, Structural)]
pub enum Reason {
    /// A character that should be a decimal digit is not one.
    InvalidDigit,
    /// Fewer than the ten digits `YYMMDDhhmm` at the start of a time.
    NotYyMmDdHhMm,
    /// Nothing follows the minutes, or nothing follows the seconds.
    MalformedTime,
    /// A time component is out of its range.
    InvalidComponents,
    /// What follows the time is neither `Z` nor a signed `hhmm` offset.
    NoTimeZone,
}

/// Every way a decode or an encode can fail.
#[derive(Debug, Clone, Copy, PartialEq, Eq, Structural)]
pub enum Error {
    /// The content length is not what the type requires.
    InvalidLength,
    /// The content is malformed for the type carrying `tag`.
    InvalidValue { tag: Tag, reason: Reason },
    /// The encoding is valid BER but not canonical DER.
    DerConstraintFailed,
    /// A restricted string holds a byte outside its repertoire.
    StringInvalidCharset,
    /// A borrowed view was asked for, but the content was owned.
    LifetimeError,
    /// The tag found is not the tag that the type declares.
    UnexpectedTag { expected: Tag, actual: Tag },
    /// A constructed encoding where a primitive one is required.
    ConstructUnexpected,
    /// A tag number in the multi-octet form, which is not handled here.
    InvalidTag,
    /// The input ended before the encoding did.
    Incomplete,
}

} // verus!
