use vstd::prelude::*;

use crate::any::{lemma_any_round_trip, spec_any_parse, Any};
use crate::error::Error;
use crate::header::{Header, Length, Tag, TAG_BOOLEAN};

verus! {

/// A BOOLEAN as its content octet: zero is false, anything else true.
#[derive(Debug, Clone, Copy, PartialEq, Eq, Structural)]
pub struct Boolean {
    pub value: u8,
}

/// The permissive decode of a BOOLEAN from a header and its content.
pub open spec fn spec_boolean_from(h: Header, d: Seq<u8>) -> Result<Boolean, Error> {
    if h.tag != Tag(TAG_BOOLEAN) {
        Err(Error::UnexpectedTag { expected: Tag(TAG_BOOLEAN), actual: h.tag })
    } else if h.length != Length::Definite(1) {
        Err(Error::InvalidLength)
    } else {
        Ok(Boolean { value: d[0] })
    }
}

/// The DER check of a BOOLEAN content: one octet, 0x00 or 0xFF.
pub open spec fn spec_boolean_der_check(d: Seq<u8>) -> Result<(), Error> {
    if d.len() != 1 {
        Err(Error::InvalidLength)
    } else if d[0] == 0 || d[0] == 0xff {
        Ok(())
    } else {
        Err(Error::DerConstraintFailed)
    }
}

/// The DER encoding of a truth value.
pub open spec fn spec_bool_der(b: bool) -> Seq<u8> {
    seq![TAG_BOOLEAN as u8, 1u8, if b { 0xffu8 } else { 0u8 }]
}

fn write_bool(b: bool, out: &mut Vec<u8>) -> (r: usize)
    ensures
        final(out)@ == old(out)@ + spec_bool_der(b),
        r == 3,
{
    out.push(TAG_BOOLEAN as u8);
    out.push(1);
    out.push(if b { 0xff } else { 0 });
    assert(final(out)@ =~= old(out)@ + spec_bool_der(b));
    3
}

fn check_boolean_content(any: &Any) -> (r: Result<(), Error>)
    ensures
        r == spec_boolean_der_check(any.data@),
{
    let d = any.data.as_slice();
    if d.len() != 1 {
        return Err(Error::InvalidLength);
    }
    let c = d[0];
    if !(c == 0 || c == 0xff) {
        return Err(Error::DerConstraintFailed);
    }
    Ok(())
}

impl Boolean {
    pub open spec fn spec_bool(self) -> bool {
        self.value != 0
    }

    pub fn new(value: u8) -> (r: Boolean)
        ensures
            r.value == value,
    {
        Boolean { value }
    }

    /// True exactly when the octet is not zero.
    pub fn bool(&self) -> (r: bool)
        ensures
            r == self.spec_bool(),
    {
        self.value != 0
    }

    /// Decodes under the permissive rules: the tag must be BOOLEAN and the
    /// content one octet.
    pub fn try_from(any: Any) -> (r: Result<Boolean, Error>)
        requires
            any.wf(),
        ensures
            r == spec_boolean_from(any.header, any.data@),
    {
        any.tag().assert_eq(Tag(TAG_BOOLEAN))?;
        if any.header.length != Length::Definite(1) {
            return Err(Error::InvalidLength);
        }
        let d = any.data.as_slice();
        let value = d[0];
        Ok(Boolean { value })
    }

    /// The DER rule: the content octet is 0x00 or 0xFF.
    pub fn check_constraints(any: &Any) -> (r: Result<(), Error>)
        ensures
            r == spec_boolean_der_check(any.data@),
    {
        check_boolean_content(any)
    }

    pub open spec fn spec_der(self) -> Seq<u8> {
        spec_bool_der(self.spec_bool())
    }

    /// Tag, length and content octet.
    pub fn to_der_len(&self) -> (r: Result<usize, Error>)
        ensures
            r == Ok::<usize, Error>(self.spec_der().len() as usize),
            r == Ok::<usize, Error>(3),
    {
        Ok(3)
    }

    /// Appends the canonical encoding: 0xFF for true, 0x00 for false.
    pub fn to_der(&self, out: &mut Vec<u8>) -> (r: usize)
        ensures
            final(out)@ == old(out)@ + self.spec_der(),
            r == self.spec_der().len(),
    {
        write_bool(self.value != 0, out)
    }

    /// Appends tag, length and the stored octet as it is.
    pub fn to_der_raw(&self, out: &mut Vec<u8>) -> (r: usize)
        ensures
            final(out)@ == old(out)@ + seq![TAG_BOOLEAN as u8, 1u8, self.value],
            r == 3,
    {
        out.push(TAG_BOOLEAN as u8);
        out.push(1);
        out.push(self.value);
        assert(final(out)@ =~= old(out)@ + seq![TAG_BOOLEAN as u8, 1u8, self.value]);
        3
    }
}

/// Decodes a BOOLEAN straight into a truth value.
pub fn bool_try_from(any: Any) -> (r: Result<bool, Error>)
    requires
        any.wf(),
    ensures
        r == (match spec_boolean_from(any.header, any.data@) {
            Ok(b) => Ok(b.spec_bool()),
            Err(e) => Err(e),
        }),
{
    any.tag().assert_eq(Tag(TAG_BOOLEAN))?;
    let b = Boolean::try_from(any)?;
    Ok(b.bool())
}

/// The DER rule for a truth value, as for `Boolean`.
pub fn bool_check_constraints(any: &Any) -> (r: Result<(), Error>)
    ensures
        r == spec_boolean_der_check(any.data@),
{
    check_boolean_content(any)
}

pub fn bool_to_der_len(b: bool) -> (r: Result<usize, Error>)
    ensures
        r == Ok::<usize, Error>(spec_bool_der(b).len() as usize),
{
    Ok(3)
}

pub fn bool_to_der(b: bool, out: &mut Vec<u8>) -> (r: usize)
    ensures
        final(out)@ == old(out)@ + spec_bool_der(b),
        r == spec_bool_der(b).len(),
{
    write_bool(b, out)
}

/// A canonical BOOLEAN reads back from its encoding as one unit of three
/// bytes, under BER and DER, decodes to itself and passes the DER check.
pub proof fn lemma_boolean_round_trip(v: Boolean, der: bool)
    requires
        v.value == 0 || v.value == 0xff,
    ensures
        ({
            let bytes = v.spec_der();
            let h = Header::new_spec_primitive(Tag(TAG_BOOLEAN), 1);
            let c = bytes.subrange(2, 3);
            &&& spec_any_parse(bytes, der) == Ok::<(Header, Seq<u8>, usize), Error>(
                (h, c, bytes.len() as usize),
            )
            &&& spec_boolean_from(h, c) == Ok::<Boolean, Error>(v)
            &&& spec_boolean_der_check(c) == Ok::<(), Error>(())
        }),
{
    let bytes = v.spec_der();
    let h = Header::new_spec_primitive(Tag(TAG_BOOLEAN), 1);
    let c = bytes.subrange(2, 3);
    assert(bytes =~= h.spec_der() + c + Seq::<u8>::empty());
    lemma_any_round_trip(h, c, Seq::empty(), der);
}

/// A truth value reads back from its encoding as one unit of three bytes,
/// under BER and DER, decodes to itself and passes the DER check.
pub proof fn lemma_bool_round_trip(b: bool, der: bool)
    ensures
        ({
            let bytes = spec_bool_der(b);
            let h = Header::new_spec_primitive(Tag(TAG_BOOLEAN), 1);
            let c = bytes.subrange(2, 3);
            &&& spec_any_parse(bytes, der) == Ok::<(Header, Seq<u8>, usize), Error>(
                (h, c, 3usize),
            )
            &&& spec_boolean_from(h, c) matches Ok(v) && v.spec_bool() == b
            &&& spec_boolean_der_check(c) == Ok::<(), Error>(())
        }),
{
    let v = Boolean { value: if b { 0xff } else { 0 } };
    assert(v.spec_der() == spec_bool_der(b));
    lemma_boolean_round_trip(v, der);
}

/// The permissive decode takes any nonzero octet as true, while the DER
/// check takes only 0x00 and 0xFF.
pub proof fn lemma_boolean_der_strictness(h: Header, c: u8)
    requires
        h.tag == Tag(TAG_BOOLEAN),
        h.length == Length::Definite(1),
    ensures
        spec_boolean_from(h, seq![c]) == Ok::<Boolean, Error>(Boolean { value: c }),
        spec_boolean_from(h, seq![c]).unwrap().spec_bool() == (c != 0),
        spec_boolean_der_check(seq![c]) == (if c == 0 || c == 0xff {
            Ok::<(), Error>(())
        } else {
            Err(Error::DerConstraintFailed)
        }),
{
}

} // verus!
