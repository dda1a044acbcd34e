use vstd::prelude::*;

use crate::error::Error;

verus! {

/// Universal tag numbers of the types handled here.
pub const TAG_BOOLEAN: u32 = 1;
pub const TAG_OCTET_STRING: u32 = 4;
pub const TAG_NULL: u32 = 5;
pub const TAG_UTC_TIME: u32 = 23;
pub const TAG_GENERAL_STRING: u32 = 27;

/// The two-bit class of a tag.
#[derive(Debug, Clone, Copy, PartialEq, Eq, Structural)]
pub enum Class {
    Universal,
    Application,
    ContextSpecific,
    Private,
}

impl Class {
    pub open spec fn spec_bits(self) -> u8 {
        match self {
            Class::Universal => 0,
            Class::Application => 1,
            Class::ContextSpecific => 2,
            Class::Private => 3,
        }
    }

    pub open spec fn spec_from_bits(b: u8) -> Class {
        if b == 0 {
            Class::Universal
        } else if b == 1 {
            Class::Application
        } else if b == 2 {
            Class::ContextSpecific
        } else {
            Class::Private
        }
    }

    /// The class whose bits are the low two bits of `b`.
    pub fn from_bits(b: u8) -> (r: Class)
        ensures
            r == Class::spec_from_bits(b % 4),
    {
        let b = b % 4;
        if b == 0 {
            Class::Universal
        } else if b == 1 {
            Class::Application
        } else if b == 2 {
            Class::ContextSpecific
        } else {
            Class::Private
        }
    }

    /// The two class bits, as a number from 0 to 3.
    pub fn bits(self) -> (r: u8)
        ensures
            r == self.spec_bits(),
    {
        match self {
            Class::Universal => 0,
            Class::Application => 1,
            Class::ContextSpecific => 2,
            Class::Private => 3,
        }
    }
}

/// A tag number within its class.
#[derive(Debug, Clone, Copy, PartialEq, Eq, Structural)]
pub struct Tag(pub u32);

impl Tag {
    /// Succeeds exactly when `self` is the expected tag.
    pub fn assert_eq(self, expected: Tag) -> (r: Result<(), Error>)
        ensures
            r == (if self == expected {
                Ok(())
            } else {
                Err(Error::UnexpectedTag { expected, actual: self })
            }),
    {
        if self.0 == expected.0 {
            Ok(())
        } else {
            Err(Error::UnexpectedTag { expected, actual: self })
        }
    }
}

/// The length of a content.
#[derive(Debug, Clone, Copy, PartialEq, Eq, Structural)]
pub enum Length {
    /// Exactly this many content bytes.
    Definite(usize),
    /// The content runs up to an end-of-contents marker (BER only).
    Indefinite,
}

impl Length {
    /// A definite length of zero.
    pub fn is_null(self) -> (r: bool)
        ensures
            r == (self == Length::Definite(0)),
    {
        match self {
            Length::Definite(n) => n == 0,
            Length::Indefinite => false,
        }
    }
}

/// 256 to the power `k`.
pub open spec fn pow256(k: nat) -> nat
    decreases k,
{
    if k == 0 {
        1
    } else {
        256 * pow256((k - 1) as nat)
    }
}

/// The minimal big-endian bytes of `n` (none for zero).
pub open spec fn be_bytes(n: nat) -> Seq<u8>
    decreases n,
{
    if n == 0 {
        Seq::empty()
    } else {
        be_bytes(n / 256).push((n % 256) as u8)
    }
}

/// The number that big-endian bytes stand for.
pub open spec fn be_value(s: Seq<u8>) -> nat
    decreases s.len(),
{
    if s.len() == 0 {
        0
    } else {
        be_value(s.drop_last()) * 256 + s.last() as nat
    }
}

/// The DER encoding of the definite length `n`: short form up to 127,
/// otherwise a count octet followed by the minimal big-endian bytes.
pub open spec fn length_bytes(n: nat) -> Seq<u8> {
    if n <= 127 {
        seq![n as u8]
    } else {
        seq![(0x80 + be_bytes(n).len()) as u8] + be_bytes(n)
    }
}

proof fn lemma_be_len_bound(n: nat, k: nat)
    requires
        n < pow256(k),
    ensures
        be_bytes(n).len() <= k,
    decreases k,
{
    if n > 0 {
        let p = pow256((k - 1) as nat);
        assert(n / 256 < p) by (nonlinear_arith)
            requires
                n < 256 * p,
        ;
        lemma_be_len_bound(n / 256, (k - 1) as nat);
    }
}

proof fn lemma_be_len_usize(n: usize)
    ensures
        be_bytes(n as nat).len() <= 8,
{
    reveal_with_fuel(pow256, 9);
    assert(pow256(8) == 0x1_0000_0000_0000_0000nat);
    lemma_be_len_bound(n as nat, 8);
}

proof fn lemma_be_value(n: nat)
    ensures
        be_value(be_bytes(n)) == n,
    decreases n,
{
    if n > 0 {
        lemma_be_value(n / 256);
        assert(be_bytes(n).drop_last() == be_bytes(n / 256));
    }
}

proof fn lemma_be_minimal(n: nat)
    requires
        n > 0,
    ensures
        be_bytes(n).len() >= 1,
        be_bytes(n)[0] != 0,
        pow256((be_bytes(n).len() - 1) as nat) <= n,
        n < pow256(be_bytes(n).len()),
    decreases n,
{
    let q = n / 256;
    if q == 0 {
        reveal_with_fuel(pow256, 2);
        assert(be_bytes(q) == Seq::<u8>::empty());
        assert(be_bytes(n) == seq![(n % 256) as u8]);
    } else {
        lemma_be_minimal(q);
        let l = be_bytes(q).len();
        let p = pow256((l - 1) as nat);
        assert(pow256(l) == 256 * p);
        assert(pow256(l + 1) == 256 * pow256(l));
        assert(p <= q && q < pow256(l));
        let r = n % 256;
        assert(n == 256 * q + r);
        assert(256 * p <= n && n < 256 * pow256(l)) by (nonlinear_arith)
            requires
                p <= q,
                q < pow256(l),
                n == 256 * q + r,
                0 <= r < 256,
        ;
    }
}

/// The DER length encoding is minimal: the short form exactly for lengths up
/// to 127; otherwise a count octet `0x80 | k` and `k` big-endian bytes whose
/// first byte is not zero, where `k` is the least count whose bytes can hold
/// `n`; and those bytes read back as `n`.
pub proof fn lemma_length_encoding_minimal(n: usize)
    ensures
        (length_bytes(n as nat).len() == 1) <==> n <= 127,
        n <= 127 ==> length_bytes(n as nat) == seq![n as u8],
        n > 127 ==> {
            let b = be_bytes(n as nat);
            &&& 1 <= b.len() <= 8
            &&& b[0] != 0
            &&& pow256((b.len() - 1) as nat) <= n < pow256(b.len())
            &&& be_value(b) == n
            &&& length_bytes(n as nat)[0] == 0x80 + b.len()
            &&& length_bytes(n as nat).drop_first() == b
        },
{
    lemma_be_value(n as nat);
    lemma_be_len_usize(n);
    if n > 127 {
        lemma_be_minimal(n as nat);
        assert(length_bytes(n as nat).drop_first() =~= be_bytes(n as nat));
    }
}

/// Appends the minimal big-endian bytes of `n`.
fn push_be(n: usize, out: &mut Vec<u8>)
    ensures
        final(out)@ == old(out)@ + be_bytes(n as nat),
    decreases n,
{
    if n != 0 {
        push_be(n / 256, out);
        out.push((n % 256) as u8);
        assert(be_bytes(n as nat) == be_bytes((n / 256) as nat).push((n % 256) as u8));
        assert(final(out)@ =~= old(out)@ + be_bytes(n as nat));
    }
}

/// The number of minimal big-endian bytes of `n`.
fn be_len(n: usize) -> (r: usize)
    ensures
        r == be_bytes(n as nat).len(),
        r <= 8,
    decreases n,
{
    proof {
        lemma_be_len_usize(n);
    }
    if n == 0 {
        0
    } else {
        let k = be_len(n / 256);
        k + 1
    }
}

/// The identifier and length of one encoded unit.
#[derive(Debug, Clone, Copy, PartialEq, Eq, Structural)]
pub struct Header {
    pub class: Class,
    pub constructed: bool,
    pub tag: Tag,
    pub length: Length,
}

impl Header {
    pub fn new(class: Class, constructed: bool, tag: Tag, length: Length) -> (r: Header)
        ensures
            r == (Header { class, constructed, tag, length }),
    {
        Header { class, constructed, tag, length }
    }

    /// A primitive universal header with a definite length.
    pub open spec fn new_spec_primitive(tag: Tag, n: usize) -> Header {
        Header { class: Class::Universal, constructed: false, tag, length: Length::Definite(n) }
    }

    /// The identifier octet: class bits, constructed bit, tag number.
    pub open spec fn spec_tag_octet(self) -> u8 {
        (self.class.spec_bits() * 64 + (if self.constructed {
            32int
        } else {
            0int
        }) + self.tag.0) as u8
    }

    /// The DER encoding of a header with a definite length.
    pub open spec fn spec_der(self) -> Seq<u8> {
        match self.length {
            Length::Definite(n) => seq![self.spec_tag_octet()] + length_bytes(n as nat),
            Length::Indefinite => seq![self.spec_tag_octet(), 0x80],
        }
    }

    fn tag_octet(&self) -> (r: u8)
        requires
            self.tag.0 <= 30,
        ensures
            r == self.spec_tag_octet(),
    {
        let c: u8 = if self.constructed {
            32
        } else {
            0
        };
        self.class.bits() * 64 + c + self.tag.0 as u8
    }

    /// The number of bytes that `to_der` writes; an indefinite length has no
    /// DER form.
    pub fn to_der_len(&self) -> (r: Result<usize, Error>)
        requires
            self.tag.0 <= 30,
        ensures
            r == (match self.length {
                Length::Definite(_) => Ok(self.spec_der().len() as usize),
                Length::Indefinite => Err(Error::DerConstraintFailed),
            }),
            r matches Ok(k) ==> 2 <= k <= 10,
            self.length is Definite ==> 2 <= self.spec_der().len() <= 10,
    {
        match self.length {
            Length::Definite(n) => {
                proof {
                    lemma_be_len_usize(n);
                }
                if n <= 127 {
                    Ok(2)
                } else {
                    Ok(2 + be_len(n))
                }
            },
            Length::Indefinite => Err(Error::DerConstraintFailed),
        }
    }

    /// Appends the DER encoding of the header and returns its size.
    pub fn to_der(&self, out: &mut Vec<u8>) -> (r: Result<usize, Error>)
        requires
            self.tag.0 <= 30,
        ensures
            match self.length {
                Length::Definite(_) => {
                    &&& r == Ok::<usize, Error>(self.spec_der().len() as usize)
                    &&& final(out)@ == old(out)@ + self.spec_der()
                },
                Length::Indefinite => r == Err::<usize, Error>(Error::DerConstraintFailed) && final(out)@
                    == old(out)@,
            },
    {
        match self.length {
            Length::Definite(n) => {
                let t = self.tag_octet();
                out.push(t);
                if n <= 127 {
                    out.push(n as u8);
                    assert(final(out)@ =~= old(out)@ + self.spec_der());
                    Ok(2)
                } else {
                    let k = be_len(n);
                    out.push(0x80 + k as u8);
                    push_be(n, out);
                    assert(final(out)@ =~= old(out)@ + self.spec_der());
                    Ok(2 + k)
                }
            },
            Length::Indefinite => Err(Error::DerConstraintFailed),
        }
    }

    /// Fails when the constructed bit is set.
    pub fn assert_primitive(&self) -> (r: Result<(), Error>)
        ensures
            r == (if self.constructed {
                Err(Error::ConstructUnexpected)
            } else {
                Ok(())
            }),
    {
        if self.constructed {
            Err(Error::ConstructUnexpected)
        } else {
            Ok(())
        }
    }
}

/// The decode of a length at the start of `s`, with the number of bytes it
/// took. BER allows the indefinite form and non-minimal long forms; DER
/// (`der`) refuses both. The count 127 is reserved.
pub open spec fn spec_length_parse(s: Seq<u8>, der: bool) -> Result<(Length, usize), Error> {
    if s.len() == 0 {
        Err(Error::Incomplete)
    } else if s[0] < 0x80 {
        Ok((Length::Definite(s[0] as usize), 1usize))
    } else if s[0] == 0x80 {
        if der {
            Err(Error::DerConstraintFailed)
        } else {
            Ok((Length::Indefinite, 1usize))
        }
    } else if s[0] == 0xff {
        Err(Error::InvalidLength)
    } else {
        let k = s[0] - 0x80;
        if s.len() < 1 + k {
            Err(Error::Incomplete)
        } else {
            let b = s.subrange(1, 1 + k);
            if be_value(b) > usize::MAX {
                Err(Error::InvalidLength)
            } else if der && (b[0] == 0 || be_value(b) <= 127) {
                Err(Error::DerConstraintFailed)
            } else {
                Ok((Length::Definite(be_value(b) as usize), (1 + k) as usize))
            }
        }
    }
}

proof fn lemma_be_value_prefix(s: Seq<u8>, i: int)
    requires
        0 <= i < s.len(),
    ensures
        be_value(s.subrange(0, i + 1)) == be_value(s.subrange(0, i)) * 256 + s[i],
{
    assert(s.subrange(0, i + 1).drop_last() =~= s.subrange(0, i));
}

proof fn lemma_be_value_mono(s: Seq<u8>, i: int, j: int)
    requires
        0 <= i <= j <= s.len(),
    ensures
        be_value(s.subrange(0, i)) <= be_value(s.subrange(0, j)),
    decreases j - i,
{
    if i < j {
        lemma_be_value_mono(s, i, j - 1);
        lemma_be_value_prefix(s, j - 1);
    }
}

impl Length {
    /// Reads a length at the start of `bytes` and says how many bytes it
    /// took.
    pub fn from_der(bytes: &[u8], der: bool) -> (r: Result<(Length, usize), Error>)
        ensures
            r == spec_length_parse(bytes@, der),
    {
        if bytes.len() == 0 {
            return Err(Error::Incomplete);
        }
        let b0 = bytes[0];
        if b0 < 0x80 {
            return Ok((Length::Definite(b0 as usize), 1));
        }
        if b0 == 0x80 {
            if der {
                return Err(Error::DerConstraintFailed);
            }
            return Ok((Length::Indefinite, 1));
        }
        if b0 == 0xff {
            return Err(Error::InvalidLength);
        }
        let k = (b0 - 0x80) as usize;
        if bytes.len() - 1 < k {
            return Err(Error::Incomplete);
        }
        let b = vstd::slice::slice_subrange(bytes, 1, 1 + k);
        assert(b@ == bytes@.subrange(1, 1 + k as int));
        let mut v: usize = 0;
        let mut i: usize = 0;
        while i < k
            invariant
                i <= k,
                b@.len() == k,
                b@ == bytes@.subrange(1, 1 + k as int),
                bytes@.len() >= 1 + k,
                0x80 < bytes@[0] < 0xff,
                k == bytes@[0] - 0x80,
                v == be_value(b@.subrange(0, i as int)),
            decreases k - i,
        {
            let c = b[i] as usize;
            proof {
                lemma_be_value_prefix(b@, i as int);
            }
            if v > (usize::MAX - c) / 256 {
                proof {
                    assert(v * 256 + c > usize::MAX) by (nonlinear_arith)
                        requires
                            v > (usize::MAX - c) / 256,
                            c <= 255,
                    ;
                    lemma_be_value_mono(b@, i + 1, k as int);
                    assert(b@.subrange(0, k as int) =~= b@);
                }
                return Err(Error::InvalidLength);
            }
            assert(v * 256 + c <= usize::MAX) by (nonlinear_arith)
                requires
                    v <= (usize::MAX - c) / 256,
                    c <= 255,
            ;
            v = v * 256 + c;
            i = i + 1;
        }
        assert(b@.subrange(0, k as int) =~= b@);
        if der && (b[0] == 0 || v <= 127) {
            return Err(Error::DerConstraintFailed);
        }
        Ok((Length::Definite(v), 1 + k))
    }
}

/// Reading back the DER encoding of a definite length gives that length and
/// consumes exactly its bytes, under BER and under DER, whatever follows.
pub proof fn lemma_length_round_trip(n: usize, rest: Seq<u8>, der: bool)
    ensures
        spec_length_parse(length_bytes(n as nat) + rest, der) == Ok::<(Length, usize), Error>(
            (Length::Definite(n), length_bytes(n as nat).len() as usize),
        ),
{
    lemma_length_encoding_minimal(n);
    let s = length_bytes(n as nat) + rest;
    if n > 127 {
        let b = be_bytes(n as nat);
        assert(s.subrange(1, 1 + b.len() as int) =~= b);
    }
}

/// The decode of a header at the start of `s`, with the number of bytes it
/// took: the identifier octet, then the length.
pub open spec fn spec_header_parse(s: Seq<u8>, der: bool) -> Result<(Header, usize), Error> {
    if s.len() == 0 {
        Err(Error::Incomplete)
    } else if s[0] % 32 == 31 {
        Err(Error::InvalidTag)
    } else {
        match spec_length_parse(s.drop_first(), der) {
            Ok((length, k)) => Ok(
                (
                    Header {
                        class: Class::spec_from_bits(s[0] / 64),
                        constructed: (s[0] / 32) % 2 == 1,
                        tag: Tag((s[0] % 32) as u32),
                        length,
                    },
                    (1 + k) as usize,
                ),
            ),
            Err(e) => Err(e),
        }
    }
}

impl Header {
    /// Reads a header at the start of `bytes` and says how many bytes it
    /// took.
    pub fn from_der(bytes: &[u8], der: bool) -> (r: Result<(Header, usize), Error>)
        ensures
            r == spec_header_parse(bytes@, der),
            r matches Ok((_, k)) ==> k <= bytes@.len(),
    {
        if bytes.len() == 0 {
            return Err(Error::Incomplete);
        }
        let b = bytes[0];
        if b % 32 == 31 {
            return Err(Error::InvalidTag);
        }
        let rest = vstd::slice::slice_subrange(bytes, 1, bytes.len());
        assert(rest@ =~= bytes@.drop_first());
        match Length::from_der(rest, der) {
            Ok((length, k)) => {
                let header = Header {
                    class: Class::from_bits(b / 64),
                    constructed: (b / 32) % 2 == 1,
                    tag: Tag((b % 32) as u32),
                    length,
                };
                Ok((header, 1 + k))
            },
            Err(e) => Err(e),
        }
    }
}

/// Reading back the DER encoding of a header with a definite length and a
/// tag number up to 30 gives that header and consumes exactly its bytes,
/// whatever follows.
pub proof fn lemma_header_round_trip(h: Header, rest: Seq<u8>, der: bool)
    requires
        h.tag.0 <= 30,
        h.length is Definite,
    ensures
        spec_header_parse(h.spec_der() + rest, der) == Ok::<(Header, usize), Error>(
            (h, h.spec_der().len() as usize),
        ),
{
    let n = h.length->Definite_0;
    let s = h.spec_der() + rest;
    let b = h.spec_tag_octet();
    let c: int = if h.constructed {
        1
    } else {
        0
    };
    let x = h.class.spec_bits() as int;
    let t = h.tag.0 as int;
    assert(b == x * 64 + c * 32 + t);
    assert(b % 32 == t && b / 64 == x && (b / 32) % 2 == c) by (nonlinear_arith)
        requires
            b == x * 64 + c * 32 + t,
            0 <= x < 4,
            0 <= c < 2,
            0 <= t <= 30,
    ;
    assert(s.drop_first() =~= length_bytes(n as nat) + rest);
    lemma_length_round_trip(n, rest, der);
    lemma_length_encoding_minimal(n);
}

} // verus!
