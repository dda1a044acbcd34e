//! Core of an X.690 BER/DER codec: tags, lengths, headers, the generic
//! decoded unit, and the conversions of a few universal types.

pub mod error;
pub mod header;
pub mod any;
pub mod boolean;
pub mod null;
pub mod octetstring;
pub mod generalstring;
pub mod datetime;
pub mod utctime;

pub use any::{Any, CowBytes};
pub use boolean::Boolean;
pub use datetime::{ASN1DateTime, ASN1TimeZone};
pub use error::{Error, Reason};
pub use generalstring::GeneralString;
pub use header::{Class, Header, Length, Tag};
pub use null::Null;
pub use octetstring::OctetString;
pub use utctime::UtcTime;
