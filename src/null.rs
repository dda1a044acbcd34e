use vstd::prelude::*;

use crate::any::{lemma_any_round_trip, spec_any_parse, Any};
use crate::error::Error;
use crate::header::{Header, Length, Tag, TAG_NULL};

verus! {

/// The NULL value.
#[derive(Debug, Clone, Copy, PartialEq, Eq, Structural)]
pub struct Null {}

/// The decode of a NULL: the tag must be NULL and the length zero.
pub open spec fn spec_null_from(h: Header) -> Result<Null, Error> {
    if h.tag != Tag(TAG_NULL) {
        Err(Error::UnexpectedTag { expected: Tag(TAG_NULL), actual: h.tag })
    } else if h.length != Length::Definite(0) {
        Err(Error::InvalidLength)
    } else {
        Ok(Null {})
    }
}

/// The decode of a NULL into `()`, which also requires a primitive encoding.
pub open spec fn spec_unit_from(h: Header) -> Result<(), Error> {
    if h.tag != Tag(TAG_NULL) {
        Err(Error::UnexpectedTag { expected: Tag(TAG_NULL), actual: h.tag })
    } else if h.constructed {
        Err(Error::ConstructUnexpected)
    } else if h.length != Length::Definite(0) {
        Err(Error::InvalidLength)
    } else {
        Ok(())
    }
}

/// The encoding of NULL: its tag and a zero length.
pub open spec fn spec_null_der() -> Seq<u8> {
    seq![TAG_NULL as u8, 0u8]
}

fn write_null(out: &mut Vec<u8>) -> (r: usize)
    ensures
        final(out)@ == old(out)@ + spec_null_der(),
        r == 2,
{
    out.push(TAG_NULL as u8);
    out.push(0);
    assert(final(out)@ =~= old(out)@ + spec_null_der());
    2
}

impl Null {
    pub fn new() -> (r: Null)
        ensures
            r == (Null {}),
    {
        Null {}
    }

    pub fn try_from(any: Any) -> (r: Result<Null, Error>)
        ensures
            r == spec_null_from(any.header),
    {
        any.tag().assert_eq(Tag(TAG_NULL))?;
        if !any.header.length.is_null() {
            return Err(Error::InvalidLength);
        }
        Ok(Null {})
    }

    /// DER adds nothing to the rules of NULL.
    pub fn check_constraints(_any: &Any) -> (r: Result<(), Error>)
        ensures
            r == Ok::<(), Error>(()),
    {
        Ok(())
    }

    pub fn to_der_len(&self) -> (r: Result<usize, Error>)
        ensures
            r == Ok::<usize, Error>(spec_null_der().len() as usize),
    {
        Ok(2)
    }

    /// The whole encoding is the header.
    pub fn write_der_header(&self, out: &mut Vec<u8>) -> (r: usize)
        ensures
            final(out)@ == old(out)@ + spec_null_der(),
            r == 2,
    {
        write_null(out)
    }

    pub fn write_der_content(&self, _out: &mut Vec<u8>) -> (r: usize)
        ensures
            final(_out)@ == old(_out)@,
            r == 0,
    {
        0
    }

    pub fn to_der(&self, out: &mut Vec<u8>) -> (r: usize)
        ensures
            final(out)@ == old(out)@ + spec_null_der(),
            r == spec_null_der().len(),
    {
        let a = self.write_der_header(out);
        let b = self.write_der_content(out);
        a + b
    }
}

/// Decodes a NULL into `()`.
pub fn unit_try_from(any: Any) -> (r: Result<(), Error>)
    ensures
        r == spec_unit_from(any.header),
{
    any.tag().assert_eq(Tag(TAG_NULL))?;
    any.header.assert_primitive()?;
    if !any.header.length.is_null() {
        return Err(Error::InvalidLength);
    }
    Ok(())
}

pub fn unit_check_constraints(_any: &Any) -> (r: Result<(), Error>)
    ensures
        r == Ok::<(), Error>(()),
{
    Ok(())
}

pub fn unit_to_der_len() -> (r: Result<usize, Error>)
    ensures
        r == Ok::<usize, Error>(spec_null_der().len() as usize),
{
    Ok(2)
}

pub fn unit_to_der(out: &mut Vec<u8>) -> (r: usize)
    ensures
        final(out)@ == old(out)@ + spec_null_der(),
        r == spec_null_der().len(),
{
    write_null(out)
}

/// A NULL tag with any length but zero fails with `InvalidLength`, both
/// into `Null` and into `()` (when primitive); the encoding is always
/// `[0x05, 0x00]`, which reads back as one unit with an empty content and
/// decodes to NULL.
pub proof fn lemma_null_rules(h: Header, der: bool)
    requires
        h.tag == Tag(TAG_NULL),
    ensures
        h.length != Length::Definite(0) ==> spec_null_from(h) == Err::<Null, Error>(
            Error::InvalidLength,
        ),
        h.length != Length::Definite(0) && !h.constructed ==> spec_unit_from(h) == Err::<(), Error>(
            Error::InvalidLength,
        ),
        spec_null_der() == seq![0x05u8, 0x00u8],
        spec_any_parse(spec_null_der(), der) == Ok::<(Header, Seq<u8>, usize), Error>(
            (Header::new_spec_primitive(Tag(TAG_NULL), 0), Seq::empty(), 2usize),
        ),
        spec_null_from(Header::new_spec_primitive(Tag(TAG_NULL), 0)) == Ok::<Null, Error>(Null {}),
        spec_unit_from(Header::new_spec_primitive(Tag(TAG_NULL), 0)) == Ok::<(), Error>(()),
{
    let h0 = Header::new_spec_primitive(Tag(TAG_NULL), 0);
    assert(spec_null_der() =~= h0.spec_der() + Seq::<u8>::empty() + Seq::<u8>::empty());
    lemma_any_round_trip(h0, Seq::empty(), Seq::empty(), der);
}

} // verus!
