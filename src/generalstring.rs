use vstd::prelude::*;

use crate::any::{lemma_any_round_trip, spec_any_parse, Any, CowBytes};
use crate::error::Error;
use crate::header::{Class, Header, Length, Tag, TAG_GENERAL_STRING};

verus! {

/// A GeneralString, limited here to 7-bit ASCII.
#[derive(Debug)]
pub struct GeneralString<'a> {
    pub data: CowBytes<'a>,
}

/// Every byte is 7-bit ASCII.
pub open spec fn all_ascii(s: Seq<u8>) -> bool {
    forall|i: int| 0 <= i < s.len() ==> s[i] < 0x80
}

/// The decode of a GeneralString from a header and its content.
pub open spec fn spec_general_string_check(h: Header, d: Seq<u8>) -> Result<(), Error> {
    if h.tag != Tag(TAG_GENERAL_STRING) {
        Err(Error::UnexpectedTag { expected: Tag(TAG_GENERAL_STRING), actual: h.tag })
    } else if !all_ascii(d) {
        Err(Error::StringInvalidCharset)
    } else {
        Ok(())
    }
}

/// The DER encoding of a GeneralString holding `s`.
pub open spec fn spec_general_string_der(s: Seq<u8>) -> Seq<u8> {
    Header::new_spec_primitive(Tag(TAG_GENERAL_STRING), s.len() as usize).spec_der() + s
}

impl<'a> GeneralString<'a> {
    pub open spec fn view(&self) -> Seq<u8> {
        self.data@
    }

    /// Fails with `StringInvalidCharset` exactly when a byte is not ASCII.
    pub fn test_string_charset(i: &[u8]) -> (r: Result<(), Error>)
        ensures
            r == (if all_ascii(i@) {
                Ok::<(), Error>(())
            } else {
                Err(Error::StringInvalidCharset)
            }),
    {
        let mut k: usize = 0;
        while k < i.len()
            invariant
                k <= i.len(),
                forall|j: int| 0 <= j < k ==> i@[j] < 0x80,
            decreases i.len() - k,
        {
            if i[k] >= 0x80 {
                return Err(Error::StringInvalidCharset);
            }
            k = k + 1;
        }
        Ok(())
    }

    /// Checks the tag and the repertoire, then takes the content as it was
    /// held; nothing is returned on failure.
    pub fn try_from(any: Any<'a>) -> (r: Result<GeneralString<'a>, Error>)
        ensures
            spec_general_string_check(any.header, any.data@) matches Err(e) ==> r == Err::<
                GeneralString<'a>,
                Error,
            >(e),
            spec_general_string_check(any.header, any.data@) is Ok ==> (r matches Ok(g) && g.data
                == any.data),
    {
        any.tag().assert_eq(Tag(TAG_GENERAL_STRING))?;
        Self::test_string_charset(any.data.as_slice())?;
        Ok(GeneralString { data: any.into_cow() })
    }

    /// DER adds nothing to the rules of this string type.
    pub fn check_constraints(_any: &Any) -> (r: Result<(), Error>)
        ensures
            r == Ok::<(), Error>(()),
    {
        Ok(())
    }

    pub fn as_bytes(&self) -> (r: &[u8])
        ensures
            r@ == self@,
    {
        self.data.as_slice()
    }

    pub open spec fn spec_der(&self) -> Seq<u8> {
        spec_general_string_der(self@)
    }

    pub fn to_der(&self, out: &mut Vec<u8>) -> (r: usize)
        ensures
            final(out)@ == old(out)@ + self.spec_der(),
            r == self.spec_der().len(),
    {
        let s = self.data.as_slice();
        let start = out.len();
        let header = Header::new(Class::Universal, false, Tag(TAG_GENERAL_STRING), Length::Definite(s.len()));
        let _ = header.to_der(out);
        out.extend_from_slice(s);
        assert(final(out)@ =~= old(out)@ + self.spec_der());
        out.len() - start
    }
}

/// The encoding of a GeneralString reads back, under BER and DER, as one
/// primitive unit holding the same bytes, which decodes when they are all
/// ASCII; with a byte of 0x80 or more the decode fails with
/// `StringInvalidCharset`.
pub proof fn lemma_general_string_rules(s: Seq<u8>, h: Header, der: bool)
    requires
        s.len() + 10 <= usize::MAX,
        h.tag == Tag(TAG_GENERAL_STRING),
    ensures
        ({
            let h0 = Header::new_spec_primitive(Tag(TAG_GENERAL_STRING), s.len() as usize);
            &&& spec_any_parse(spec_general_string_der(s), der) == Ok::<
                (Header, Seq<u8>, usize),
                Error,
            >((h0, s, spec_general_string_der(s).len() as usize))
            &&& all_ascii(s) ==> spec_general_string_check(h0, s) == Ok::<(), Error>(())
        }),
        all_ascii(s) ==> spec_general_string_check(h, s) == Ok::<(), Error>(()),
        (exists|i: int| 0 <= i < s.len() && s[i] >= 0x80) ==> spec_general_string_check(h, s)
            == Err::<(), Error>(Error::StringInvalidCharset),
{
    let h0 = Header::new_spec_primitive(Tag(TAG_GENERAL_STRING), s.len() as usize);
    crate::header::lemma_length_encoding_minimal(s.len() as usize);
    assert(spec_general_string_der(s) =~= h0.spec_der() + s + Seq::<u8>::empty());
    lemma_any_round_trip(h0, s, Seq::empty(), der);
}

} // verus!
