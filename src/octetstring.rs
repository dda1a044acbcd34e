use vstd::prelude::*;

use crate::any::{lemma_any_round_trip, spec_any_parse, Any, CowBytes};
use crate::error::Error;
use crate::header::{Class, Header, Length, Tag, TAG_OCTET_STRING};

verus! {

/// An OCTET STRING, borrowing its bytes where it can.
#[derive(Debug)]
pub struct OctetString<'a> {
    pub data: CowBytes<'a>,
}

/// The DER encoding of an OCTET STRING holding `s`.
pub open spec fn spec_octets_der(s: Seq<u8>) -> Seq<u8> {
    Header::new_spec_primitive(Tag(TAG_OCTET_STRING), s.len() as usize).spec_der() + s
}

/// The DER rule: an OCTET STRING is primitive.
pub open spec fn spec_octets_der_check(h: Header) -> Result<(), Error> {
    if h.constructed {
        Err(Error::ConstructUnexpected)
    } else {
        Ok(())
    }
}

/// The tag test that every OCTET STRING decode starts with.
pub open spec fn spec_octets_tag(h: Header) -> Result<(), Error> {
    if h.tag != Tag(TAG_OCTET_STRING) {
        Err(Error::UnexpectedTag { expected: Tag(TAG_OCTET_STRING), actual: h.tag })
    } else {
        Ok(())
    }
}

fn octets_header(n: usize) -> (r: Header)
    ensures
        r == Header::new_spec_primitive(Tag(TAG_OCTET_STRING), n),
{
    Header::new(Class::Universal, false, Tag(TAG_OCTET_STRING), Length::Definite(n))
}

fn octets_der_len(s: &[u8]) -> (r: Result<usize, Error>)
    ensures
        spec_octets_der(s@).len() <= usize::MAX ==> r == Ok::<usize, Error>(
            spec_octets_der(s@).len() as usize,
        ),
        spec_octets_der(s@).len() > usize::MAX ==> r == Err::<usize, Error>(Error::InvalidLength),
{
    let header = octets_header(s.len());
    match header.to_der_len() {
        Ok(hl) => match hl.checked_add(s.len()) {
            Some(n) => Ok(n),
            None => Err(Error::InvalidLength),
        },
        Err(e) => Err(e),
    }
}

fn write_octets(s: &[u8], out: &mut Vec<u8>) -> (r: usize)
    ensures
        final(out)@ == old(out)@ + spec_octets_der(s@),
        r == spec_octets_der(s@).len(),
{
    let start = out.len();
    let header = octets_header(s.len());
    let _ = header.to_der(out);
    out.extend_from_slice(s);
    assert(final(out)@ =~= old(out)@ + spec_octets_der(s@));
    out.len() - start
}

fn check_octets(any: &Any) -> (r: Result<(), Error>)
    ensures
        r == spec_octets_der_check(any.header),
{
    any.header.assert_primitive()
}

impl<'a> OctetString<'a> {
    pub open spec fn view(&self) -> Seq<u8> {
        self.data@
    }

    /// An OCTET STRING that borrows `s`.
    pub fn new(s: &'a [u8]) -> (r: OctetString<'a>)
        ensures
            r.data == CowBytes::Borrowed(s),
    {
        OctetString { data: CowBytes::Borrowed(s) }
    }

    pub fn as_ref(&self) -> (r: &[u8])
        ensures
            r@ == self@,
    {
        self.data.as_slice()
    }

    /// Checks the tag and takes the content as it was held.
    pub fn try_from(any: Any<'a>) -> (r: Result<OctetString<'a>, Error>)
        ensures
            spec_octets_tag(any.header) matches Err(e) ==> r == Err::<OctetString<'a>, Error>(e),
            spec_octets_tag(any.header) is Ok ==> (r matches Ok(o) && o.data == any.data),
    {
        any.tag().assert_eq(Tag(TAG_OCTET_STRING))?;
        Ok(OctetString { data: any.into_cow() })
    }

    pub fn check_constraints(any: &Any) -> (r: Result<(), Error>)
        ensures
            r == spec_octets_der_check(any.header),
    {
        check_octets(any)
    }

    pub open spec fn spec_der(&self) -> Seq<u8> {
        spec_octets_der(self@)
    }

    /// The size of the encoding; fails only where it does not fit a `usize`.
    pub fn to_der_len(&self) -> (r: Result<usize, Error>)
        ensures
            self.spec_der().len() <= usize::MAX ==> r == Ok::<usize, Error>(
                self.spec_der().len() as usize,
            ),
            self.spec_der().len() > usize::MAX ==> r == Err::<usize, Error>(Error::InvalidLength),
    {
        octets_der_len(self.data.as_slice())
    }

    pub fn to_der(&self, out: &mut Vec<u8>) -> (r: usize)
        ensures
            final(out)@ == old(out)@ + self.spec_der(),
            r == self.spec_der().len(),
    {
        write_octets(self.data.as_slice(), out)
    }
}

/// Decodes an OCTET STRING as a view of the input; fails with
/// `LifetimeError` where the content had to be rebuilt.
pub fn slice_try_from<'a>(any: Any<'a>) -> (r: Result<&'a [u8], Error>)
    ensures
        spec_octets_tag(any.header) matches Err(e) ==> r == Err::<&'a [u8], Error>(e),
        spec_octets_tag(any.header) is Ok ==> match any.data {
            CowBytes::Borrowed(s) => r == Ok::<&'a [u8], Error>(s),
            CowBytes::Owned(_) => r == Err::<&'a [u8], Error>(Error::LifetimeError),
        },
{
    any.tag().assert_eq(Tag(TAG_OCTET_STRING))?;
    let s = OctetString::try_from(any)?;
    match s.data {
        CowBytes::Borrowed(s) => Ok(s),
        CowBytes::Owned(_) => Err(Error::LifetimeError),
    }
}

pub fn slice_check_constraints(any: &Any) -> (r: Result<(), Error>)
    ensures
        r == spec_octets_der_check(any.header),
{
    check_octets(any)
}

pub fn slice_to_der_len(s: &[u8]) -> (r: Result<usize, Error>)
    ensures
        spec_octets_der(s@).len() <= usize::MAX ==> r == Ok::<usize, Error>(
            spec_octets_der(s@).len() as usize,
        ),
        spec_octets_der(s@).len() > usize::MAX ==> r == Err::<usize, Error>(Error::InvalidLength),
{
    octets_der_len(s)
}

pub fn slice_to_der(s: &[u8], out: &mut Vec<u8>) -> (r: usize)
    ensures
        final(out)@ == old(out)@ + spec_octets_der(s@),
        r == spec_octets_der(s@).len(),
{
    write_octets(s, out)
}

/// The encoding of an OCTET STRING reads back, under BER and DER, as one
/// primitive unit holding the same bytes, which passes the tag test and the
/// DER check; a constructed header with the same tag fails the DER check.
pub proof fn lemma_octets_rules(s: Seq<u8>, der: bool)
    requires
        s.len() + 10 <= usize::MAX,
    ensures
        ({
            let h = Header::new_spec_primitive(Tag(TAG_OCTET_STRING), s.len() as usize);
            &&& spec_any_parse(spec_octets_der(s), der) == Ok::<(Header, Seq<u8>, usize), Error>(
                (h, s, spec_octets_der(s).len() as usize),
            )
            &&& spec_octets_tag(h) == Ok::<(), Error>(())
            &&& spec_octets_der_check(h) == Ok::<(), Error>(())
            &&& spec_octets_der_check(Header { constructed: true, ..h }) == Err::<(), Error>(
                Error::ConstructUnexpected,
            )
        }),
{
    let h = Header::new_spec_primitive(Tag(TAG_OCTET_STRING), s.len() as usize);
    crate::header::lemma_length_encoding_minimal(s.len() as usize);
    assert(spec_octets_der(s) =~= h.spec_der() + s + Seq::<u8>::empty());
    lemma_any_round_trip(h, s, Seq::empty(), der);
}

} // verus!
