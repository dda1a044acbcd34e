use vstd::prelude::*;

use crate::error::Error;
use crate::header::{lemma_header_round_trip, spec_header_parse, Header, Length, Tag};

verus! {

/// Content bytes, either borrowed from the input or owned after being
/// rebuilt.
#[derive(Debug)]
pub enum CowBytes<'a> {
    Borrowed(&'a [u8]),
    Owned(Vec<u8>),
}

impl<'a> CowBytes<'a> {
    pub open spec fn view(&self) -> Seq<u8> {
        match self {
            CowBytes::Borrowed(s) => s@,
            CowBytes::Owned(v) => v@,
        }
    }

    pub open spec fn is_borrowed(&self) -> bool {
        self is Borrowed
    }

    /// The bytes, whichever way they are held.
    pub fn as_slice(&self) -> (r: &[u8])
        ensures
            r@ == self@,
    {
        match self {
            CowBytes::Borrowed(s) => s,
            CowBytes::Owned(v) => v.as_slice(),
        }
    }

    pub fn len(&self) -> (r: usize)
        ensures
            r == self@.len(),
    {
        match self {
            CowBytes::Borrowed(s) => s.len(),
            CowBytes::Owned(v) => v.len(),
        }
    }
}

/// One delimited unit whose content is not interpreted yet.
#[derive(Debug)]
pub struct Any<'a> {
    pub header: Header,
    pub data: CowBytes<'a>,
}

impl<'a> Any<'a> {
    /// A definite length is the number of content bytes.
    pub open spec fn wf(&self) -> bool {
        self.header.length matches Length::Definite(n) ==> n == self.data@.len()
    }

    pub fn new(header: Header, data: CowBytes<'a>) -> (r: Any<'a>)
        ensures
            r.header == header,
            r.data == data,
    {
        Any { header, data }
    }

    /// A primitive universal unit that borrows `data`, with its definite
    /// length.
    pub fn from_tag_and_data(tag: Tag, data: &'a [u8]) -> (r: Any<'a>)
        ensures
            r.header == Header::new_spec_primitive(tag, data@.len() as usize),
            r.data == CowBytes::Borrowed(data),
            r.wf(),
    {
        Any {
            header: Header::new(crate::header::Class::Universal, false, tag, Length::Definite(data.len())),
            data: CowBytes::Borrowed(data),
        }
    }

    pub fn tag(&self) -> (r: Tag)
        ensures
            r == self.header.tag,
    {
        self.header.tag
    }

    /// The content, borrowed or owned as it was held.
    pub fn into_cow(self) -> (r: CowBytes<'a>)
        ensures
            r == self.data,
    {
        self.data
    }
}

/// The decode of one unit with a definite length at the start of `s`: its
/// header, its content, and the number of bytes taken. An indefinite length
/// is left to a reader that gathers the content first.
pub open spec fn spec_any_parse(s: Seq<u8>, der: bool) -> Result<(Header, Seq<u8>, usize), Error> {
    match spec_header_parse(s, der) {
        Err(e) => Err(e),
        Ok((h, k)) => match h.length {
            Length::Indefinite => Err(Error::InvalidLength),
            Length::Definite(n) => if s.len() < k + n {
                Err(Error::Incomplete)
            } else {
                Ok((h, s.subrange(k as int, k + n), (k + n) as usize))
            },
        },
    }
}

impl<'a> Any<'a> {
    /// Reads one unit with a definite length at the start of `bytes`; its
    /// content borrows from `bytes`.
    pub fn from_der(bytes: &'a [u8], der: bool) -> (r: Result<(Any<'a>, usize), Error>)
        ensures
            match spec_any_parse(bytes@, der) {
                Ok((h, c, k)) => r matches Ok((a, k2)) && a.header == h && a.data@ == c
                    && a.data.is_borrowed() && k2 == k && a.wf(),
                Err(e) => r == Err::<(Any<'a>, usize), Error>(e),
            },
    {
        let (header, k) = match Header::from_der(bytes, der) {
            Ok(p) => p,
            Err(e) => return Err(e),
        };
        match header.length {
            Length::Indefinite => Err(Error::InvalidLength),
            Length::Definite(n) => {
                if bytes.len() - k < n {
                    return Err(Error::Incomplete);
                }
                let data = vstd::slice::slice_subrange(bytes, k, k + n);
                Ok((Any { header, data: CowBytes::Borrowed(data) }, k + n))
            },
        }
    }
}

/// A definite header followed by exactly its content reads back as that
/// header and content, whatever follows.
pub proof fn lemma_any_round_trip(h: Header, c: Seq<u8>, rest: Seq<u8>, der: bool)
    requires
        h.tag.0 <= 30,
        h.length == Length::Definite(c.len() as usize),
        c.len() <= usize::MAX,
    ensures
        h.spec_der().len() + c.len() <= usize::MAX ==> spec_any_parse(h.spec_der() + c + rest, der)
            == Ok::<(Header, Seq<u8>, usize), Error>(
            (h, c, (h.spec_der().len() + c.len()) as usize),
        ),
{
    let s = h.spec_der() + c + rest;
    assert(s =~= h.spec_der() + (c + rest));
    lemma_header_round_trip(h, c + rest, der);
    let k = h.spec_der().len();
    assert(s.subrange(k as int, (k + c.len()) as int) =~= c);
}

} // verus!
