use asn1_core::boolean::{bool_check_constraints, bool_to_der, bool_try_from};
use asn1_core::null::{unit_to_der, unit_try_from};
use asn1_core::octetstring::{slice_check_constraints, slice_to_der, slice_try_from};
use asn1_core::{
    ASN1DateTime, ASN1TimeZone, Any, Boolean, Class, CowBytes, Error, GeneralString, Header,
    Length, Null, OctetString, Reason, Tag, UtcTime,
};

fn any_of(tag: u32, data: &[u8]) -> Any<'_> {
    Any::from_tag_and_data(Tag(tag), data)
}

fn utc_invalid(reason: Reason) -> Error {
    Error::InvalidValue { tag: Tag(23), reason }
}

#[test]
fn boolean_one_is_ber_true_but_not_der() {
    let data = [0x01u8];
    let b = Boolean::try_from(any_of(1, &data)).unwrap();
    assert_eq!(b.value, 1);
    assert!(b.bool());
    assert_eq!(Boolean::check_constraints(&any_of(1, &data)), Err(Error::DerConstraintFailed));
    assert_eq!(bool_try_from(any_of(1, &data)), Ok(true));
    assert_eq!(bool_check_constraints(&any_of(1, &data)), Err(Error::DerConstraintFailed));
}

#[test]
fn boolean_canonical_values_pass_both_paths() {
    for (c, v) in [(0x00u8, false), (0xffu8, true)] {
        let data = [c];
        assert_eq!(Boolean::try_from(any_of(1, &data)).unwrap().bool(), v);
        assert_eq!(Boolean::check_constraints(&any_of(1, &data)), Ok(()));
        assert_eq!(bool_try_from(any_of(1, &data)), Ok(v));
    }
}

#[test]
fn boolean_wrong_length_and_tag() {
    let data = [0xffu8, 0x00];
    assert_eq!(Boolean::try_from(any_of(1, &data)), Err(Error::InvalidLength));
    assert_eq!(
        Boolean::try_from(any_of(2, &data[..1])),
        Err(Error::UnexpectedTag { expected: Tag(1), actual: Tag(2) })
    );
}

#[test]
fn boolean_encoding() {
    let mut out = Vec::new();
    assert_eq!(Boolean::new(0x01).to_der(&mut out), 3);
    assert_eq!(out, vec![0x01, 0x01, 0xff]);
    assert_eq!(Boolean::new(0x01).to_der_len(), Ok(3));
    let mut raw = Vec::new();
    assert_eq!(Boolean::new(0x01).to_der_raw(&mut raw), 3);
    assert_eq!(raw, vec![0x01, 0x01, 0x01]);
    let mut f = Vec::new();
    bool_to_der(false, &mut f);
    assert_eq!(f, vec![0x01, 0x01, 0x00]);
}

#[test]
fn boolean_round_trip() {
    for v in [Boolean::new(0), Boolean::new(0xff)] {
        let mut out = Vec::new();
        let n = v.to_der(&mut out);
        assert_eq!(Ok(n), v.to_der_len());
        let back = Boolean::try_from(any_of(1, &out[2..])).unwrap();
        assert_eq!(back, v);
    }
}

#[test]
fn null_rejects_content() {
    let data = [0x00u8];
    assert_eq!(Null::try_from(any_of(5, &data)).unwrap_err(), Error::InvalidLength);
    assert_eq!(unit_try_from(any_of(5, &data)), Err(Error::InvalidLength));
    assert!(Null::try_from(any_of(5, &[])).is_ok());
    assert_eq!(unit_try_from(any_of(5, &[])), Ok(()));
}

#[test]
fn null_constructed_unit_rejected() {
    let h = Header::new(Class::Universal, true, Tag(5), Length::Definite(0));
    let any = Any::new(h, CowBytes::Borrowed(&[]));
    assert_eq!(unit_try_from(any), Err(Error::ConstructUnexpected));
}

#[test]
fn null_encoding() {
    let mut out = Vec::new();
    assert_eq!(Null::new().to_der(&mut out), 2);
    assert_eq!(out, vec![0x05, 0x00]);
    assert_eq!(Null::new().to_der_len(), Ok(2));
    let mut u = Vec::new();
    unit_to_der(&mut u);
    assert_eq!(u, vec![0x05, 0x00]);
}

#[test]
fn octet_string_constructed_fails_der() {
    let data = [0x04u8, 0x01, 0xaa];
    let h = Header::new(Class::Universal, true, Tag(4), Length::Definite(3));
    let any = Any::new(h, CowBytes::Borrowed(&data));
    assert_eq!(OctetString::check_constraints(&any), Err(Error::ConstructUnexpected));
    assert_eq!(slice_check_constraints(&any), Err(Error::ConstructUnexpected));
    let o = OctetString::try_from(any).unwrap();
    assert_eq!(o.as_ref(), &data[..]);
}

#[test]
fn octet_string_borrowed_and_owned_views() {
    let data = [1u8, 2, 3];
    assert_eq!(slice_try_from(any_of(4, &data)), Ok(&data[..]));
    let h = Header::new(Class::Universal, false, Tag(4), Length::Definite(3));
    let owned = Any::new(h, CowBytes::Owned(vec![1, 2, 3]));
    assert_eq!(slice_try_from(owned), Err(Error::LifetimeError));
    let h = Header::new(Class::Universal, false, Tag(4), Length::Definite(3));
    let owned = Any::new(h, CowBytes::Owned(vec![1, 2, 3]));
    assert_eq!(OctetString::try_from(owned).unwrap().as_ref(), &[1u8, 2, 3][..]);
}

#[test]
fn octet_string_encoding_and_long_lengths() {
    let data = vec![0x5au8; 200];
    let o = OctetString::new(&data);
    let mut out = Vec::new();
    let n = o.to_der(&mut out);
    assert_eq!(n, 203);
    assert_eq!(o.to_der_len(), Ok(203));
    assert_eq!(&out[..3], &[0x04, 0x81, 200]);
    assert_eq!(&out[3..], &data[..]);
    let back = OctetString::try_from(any_of(4, &out[3..])).unwrap();
    assert_eq!(back.as_ref(), &data[..]);
    let mut s = Vec::new();
    slice_to_der(&[], &mut s);
    assert_eq!(s, vec![0x04, 0x00]);
}

#[test]
fn length_encoding_is_minimal() {
    let cases: [(usize, Vec<u8>); 5] = [
        (0, vec![0x00]),
        (127, vec![0x7f]),
        (128, vec![0x81, 0x80]),
        (256, vec![0x82, 0x01, 0x00]),
        (0x1_0000, vec![0x83, 0x01, 0x00, 0x00]),
    ];
    for (n, expected) in cases.iter() {
        let h = Header::new(Class::Universal, false, Tag(4), Length::Definite(*n));
        let mut out = Vec::new();
        let k = h.to_der(&mut out).unwrap();
        assert_eq!(out[0], 0x04);
        assert_eq!(&out[1..], &expected[..]);
        assert_eq!(h.to_der_len(), Ok(k));
        assert_eq!(k, 1 + expected.len());
    }
}

#[test]
fn header_identifier_octet_and_indefinite() {
    let h = Header::new(Class::ContextSpecific, true, Tag(3), Length::Definite(1));
    let mut out = Vec::new();
    h.to_der(&mut out).unwrap();
    assert_eq!(out, vec![0xa3, 0x01]);
    let h = Header::new(Class::Universal, true, Tag(16), Length::Indefinite);
    assert_eq!(h.to_der_len(), Err(Error::DerConstraintFailed));
    let mut out = Vec::new();
    assert_eq!(h.to_der(&mut out), Err(Error::DerConstraintFailed));
    assert!(out.is_empty());
}

#[test]
fn general_string_charset() {
    assert_eq!(GeneralString::test_string_charset(b"abc"), Ok(()));
    assert_eq!(
        GeneralString::test_string_charset(&[0x61, 0x80]),
        Err(Error::StringInvalidCharset)
    );
    let bad = [0x41u8, 0xc3, 0xa9];
    assert_eq!(GeneralString::try_from(any_of(27, &bad)).unwrap_err(), Error::StringInvalidCharset);
    let good = b"hello";
    let g = GeneralString::try_from(any_of(27, good)).unwrap();
    assert_eq!(g.as_bytes(), &good[..]);
    let mut out = Vec::new();
    assert_eq!(g.to_der(&mut out), 7);
    assert_eq!(out, vec![27, 5, b'h', b'e', b'l', b'l', b'o']);
}

fn dt(y: u32, mo: u8, d: u8, h: u8, mi: u8, s: u8, tz: ASN1TimeZone) -> ASN1DateTime {
    ASN1DateTime::new(y, mo, d, h, mi, s, None, tz)
}

#[test]
fn utc_time_without_seconds() {
    let t = UtcTime::from_bytes(b"9912312359Z").unwrap();
    assert_eq!(t, UtcTime::new(dt(99, 12, 31, 23, 59, 0, ASN1TimeZone::Z)));
}

#[test]
fn utc_time_with_seconds() {
    let t = UtcTime::from_bytes(b"991231235959Z").unwrap();
    assert_eq!(t, UtcTime::new(dt(99, 12, 31, 23, 59, 59, ASN1TimeZone::Z)));
}

#[test]
fn utc_time_month_out_of_range() {
    assert_eq!(UtcTime::from_bytes(b"9913010000Z"), Err(utc_invalid(Reason::InvalidComponents)));
}

#[test]
fn utc_time_positive_offset() {
    let t = UtcTime::from_bytes(b"9912312359+0100").unwrap();
    assert_eq!(t.0.tz, ASN1TimeZone::Offset(1, 1, 0));
    assert_eq!(t.0.second, 0);
    let t = UtcTime::from_bytes(b"991231235930-0230").unwrap();
    assert_eq!(t.0.tz, ASN1TimeZone::Offset(-1, 2, 30));
    assert_eq!(t.0.second, 30);
}

#[test]
fn utc_time_malformed() {
    assert_eq!(UtcTime::from_bytes(b"99123123"), Err(utc_invalid(Reason::NotYyMmDdHhMm)));
    assert_eq!(UtcTime::from_bytes(b"9912312359"), Err(utc_invalid(Reason::MalformedTime)));
    assert_eq!(UtcTime::from_bytes(b"991231235959"), Err(utc_invalid(Reason::MalformedTime)));
    assert_eq!(UtcTime::from_bytes(b"9912312359X"), Err(utc_invalid(Reason::NoTimeZone)));
    assert_eq!(UtcTime::from_bytes(b"9912312359ZZ"), Err(utc_invalid(Reason::NoTimeZone)));
    assert_eq!(UtcTime::from_bytes(b"99a2312359Z"), Err(utc_invalid(Reason::InvalidDigit)));
    assert_eq!(UtcTime::from_bytes(b"99123123595Z"), Err(utc_invalid(Reason::InvalidDigit)));
    assert_eq!(UtcTime::from_bytes(b"9912312359+01x0"), Err(utc_invalid(Reason::InvalidDigit)));
    assert_eq!(UtcTime::from_bytes(b"9912312360Z"), Err(utc_invalid(Reason::InvalidComponents)));
}

#[test]
fn utc_time_any_checks_tag_and_visibility() {
    let bad = [0x39u8, 0x39, 0x01];
    assert_eq!(UtcTime::try_from(any_of(23, &bad)), Err(Error::StringInvalidCharset));
    assert_eq!(
        UtcTime::try_from(any_of(24, b"9912312359Z")),
        Err(Error::UnexpectedTag { expected: Tag(23), actual: Tag(24) })
    );
    let t = UtcTime::try_from(any_of(23, b"9912312359Z")).unwrap();
    assert_eq!(t.0.minute, 59);
}

#[test]
fn utc_time_encoding_is_fifteen_bytes_in_z() {
    let t = UtcTime::from_bytes(b"0001020304+0530").unwrap();
    let mut out = Vec::new();
    assert_eq!(t.to_der(&mut out), 15);
    assert_eq!(t.to_der_len(), Ok(15));
    assert_eq!(out, b"\x17\x0d000102030400Z".to_vec());
    assert_eq!(*out.last().unwrap(), b'Z');
}

#[test]
fn utc_time_round_trip() {
    let v = UtcTime::new(dt(7, 2, 28, 9, 5, 1, ASN1TimeZone::Z));
    let mut out = Vec::new();
    v.to_der(&mut out);
    assert_eq!(UtcTime::try_from(any_of(23, &out[2..])), Ok(v));
}

#[test]
fn utc_time_timestamp() {
    let epoch = UtcTime::new(dt(1970, 1, 1, 0, 0, 0, ASN1TimeZone::Z));
    assert_eq!(epoch.timestamp(), Some(0));
    let t = UtcTime::new(dt(2000, 3, 1, 0, 0, 1, ASN1TimeZone::Z));
    assert_eq!(t.timestamp(), Some(951_868_801));
    let feb30 = UtcTime::new(dt(2001, 2, 30, 0, 0, 0, ASN1TimeZone::Z));
    assert_eq!(feb30.timestamp(), None);
    let y99 = UtcTime::from_bytes(b"990101000000Z").unwrap();
    assert!(y99.timestamp().unwrap() < 0);
}

#[test]
fn length_decoding_rules() {
    assert_eq!(Length::from_der(&[0x05, 0xaa], true), Ok((Length::Definite(5), 1)));
    assert_eq!(Length::from_der(&[0x81, 0xc8], true), Ok((Length::Definite(200), 2)));
    assert_eq!(Length::from_der(&[0x82, 0x01, 0x00], true), Ok((Length::Definite(256), 3)));
    assert_eq!(Length::from_der(&[0x80], false), Ok((Length::Indefinite, 1)));
    assert_eq!(Length::from_der(&[0x80], true), Err(Error::DerConstraintFailed));
    assert_eq!(Length::from_der(&[0xff, 0x01], false), Err(Error::InvalidLength));
    assert_eq!(Length::from_der(&[0x82, 0x01], false), Err(Error::Incomplete));
    assert_eq!(Length::from_der(&[], false), Err(Error::Incomplete));
    // a leading zero byte and a long form for a short length are BER only
    assert_eq!(Length::from_der(&[0x82, 0x00, 0xc8], false), Ok((Length::Definite(200), 3)));
    assert_eq!(Length::from_der(&[0x82, 0x00, 0xc8], true), Err(Error::DerConstraintFailed));
    assert_eq!(Length::from_der(&[0x81, 0x05], false), Ok((Length::Definite(5), 2)));
    assert_eq!(Length::from_der(&[0x81, 0x05], true), Err(Error::DerConstraintFailed));
    let too_big = [0x89u8, 1, 0, 0, 0, 0, 0, 0, 0, 0];
    assert_eq!(Length::from_der(&too_big, false), Err(Error::InvalidLength));
}

#[test]
fn header_decoding() {
    let (h, k) = Header::from_der(&[0xa3, 0x81, 0x80], true).unwrap();
    assert_eq!(k, 3);
    assert_eq!(h, Header::new(Class::ContextSpecific, true, Tag(3), Length::Definite(128)));
    assert_eq!(Header::from_der(&[0x1f, 0x01], false), Err(Error::InvalidTag));
    assert_eq!(Header::from_der(&[0x04], false), Err(Error::Incomplete));
}

#[test]
fn any_decoding_borrows_content() {
    let bytes = [0x04u8, 0x02, 0xde, 0xad, 0x05, 0x00];
    let (any, k) = Any::from_der(&bytes, true).unwrap();
    assert_eq!(k, 4);
    assert_eq!(any.header.tag, Tag(4));
    assert_eq!(slice_try_from(any), Ok(&bytes[2..4]));
    let (any, k) = Any::from_der(&bytes[4..], true).unwrap();
    assert_eq!(k, 2);
    assert!(Null::try_from(any).is_ok());
    assert_eq!(Any::from_der(&bytes[..3], true).unwrap_err(), Error::Incomplete);
    assert_eq!(Any::from_der(&[0x30, 0x80, 0x00, 0x00], false).unwrap_err(), Error::InvalidLength);
}

#[test]
fn round_trip_through_bytes() {
    let mut out = Vec::new();
    Boolean::new(0xff).to_der(&mut out);
    let (any, k) = Any::from_der(&out, true).unwrap();
    assert_eq!(k, 3);
    assert_eq!(Boolean::check_constraints(&any), Ok(()));
    assert_eq!(Boolean::try_from(any), Ok(Boolean::new(0xff)));

    let data = vec![7u8; 300];
    let mut out = Vec::new();
    let n = OctetString::new(&data).to_der(&mut out);
    let (any, k) = Any::from_der(&out, true).unwrap();
    assert_eq!(k, n);
    assert_eq!(OctetString::try_from(any).unwrap().as_ref(), &data[..]);

    let v = UtcTime::new(dt(49, 12, 31, 23, 59, 59, ASN1TimeZone::Z));
    let mut out = Vec::new();
    v.to_der(&mut out);
    let (any, k) = Any::from_der(&out, true).unwrap();
    assert_eq!(k, 15);
    assert_eq!(UtcTime::try_from(any), Ok(v));
}

#[test]
fn utc_time_text() {
    let t = UtcTime::from_bytes(b"9912312359+0100").unwrap();
    assert_eq!(t.to_text(), b"0099-12-31 23:59:00 +0100".to_vec());
    let z = UtcTime::new(dt(2024, 2, 3, 4, 5, 6, ASN1TimeZone::Undefined));
    assert_eq!(z.to_text(), b"2024-02-03 04:05:06 Z".to_vec());
    let m = UtcTime::new(dt(1, 1, 1, 0, 0, 0, ASN1TimeZone::Offset(-1, 12, 30)));
    assert_eq!(m.to_text(), b"0001-01-01 00:00:00 -1230".to_vec());
}
