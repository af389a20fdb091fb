//! Errors of the encoders and of the decoder.

use crate::rdp_core;
use vstd::prelude::*;

verus! {

/// Why a value could not be put into its wire form.
#[derive(Debug, Clone, Copy, PartialEq, Eq, Structural)]
pub enum EncodeError {
    /// A touch frame without any contact.
    NoContacts,
    /// A touch frame with more contacts than its counter can hold.
    TooManyContacts,
    /// More contacts than the client announced it would use.
    TooManyActiveContacts,
    /// An orientation of 360 degrees or more.
    OrientationOutOfRange,
    /// A pressure above 1024.
    PressureOutOfRange,
    /// A value that a `TWO_BYTE_UNSIGNED_INTEGER` cannot carry.
    TwoByteUnsignedOutOfRange,
    /// A value that a `TWO_BYTE_SIGNED_INTEGER` cannot carry.
    TwoByteSignedOutOfRange,
    /// A value that a `FOUR_BYTE_UNSIGNED_INTEGER` cannot carry.
    FourByteUnsignedOutOfRange,
    /// A value that a `FOUR_BYTE_SIGNED_INTEGER` cannot carry.
    FourByteSignedOutOfRange,
    /// A value that is not accepted for an `EIGHT_BYTE_UNSIGNED_INTEGER`.
    EightByteUnsignedOutOfRange,
}

impl EncodeError {
    /// The function that refuses, as characters.
    pub open spec fn origin(self) -> Seq<char> {
        match self {
            EncodeError::NoContacts => "ironrdp_rdpei::TouchFrame::new"@,
            EncodeError::TooManyContacts => "ironrdp_rdpei::TouchFrame::new"@,
            EncodeError::TooManyActiveContacts => "ironrdp_rdpei::validate_contact_count"@,
            EncodeError::OrientationOutOfRange => "ironrdp_rdpei::TouchContact::with_orientation"@,
            EncodeError::PressureOutOfRange => "ironrdp_rdpei::TouchContact::with_pressure"@,
            EncodeError::TwoByteUnsignedOutOfRange => "ironrdp_rdpei::write_2byte_unsigned"@,
            EncodeError::TwoByteSignedOutOfRange => "ironrdp_rdpei::write_2byte_signed"@,
            EncodeError::FourByteUnsignedOutOfRange => "ironrdp_rdpei::write_4byte_unsigned"@,
            EncodeError::FourByteSignedOutOfRange => "ironrdp_rdpei::write_4byte_signed"@,
            EncodeError::EightByteUnsignedOutOfRange => "ironrdp_rdpei::write_8byte_unsigned"@,
        }
    }

    /// The field that `self` is about, as characters.
    pub open spec fn field_name(self) -> Seq<char> {
        match self {
            EncodeError::NoContacts => "contactCount"@,
            EncodeError::TooManyContacts => "contactCount"@,
            EncodeError::TooManyActiveContacts => "contactCount"@,
            EncodeError::OrientationOutOfRange => "orientation"@,
            EncodeError::PressureOutOfRange => "pressure"@,
            EncodeError::TwoByteUnsignedOutOfRange => "TWO_BYTE_UNSIGNED_INTEGER"@,
            EncodeError::TwoByteSignedOutOfRange => "TWO_BYTE_SIGNED_INTEGER"@,
            EncodeError::FourByteUnsignedOutOfRange => "FOUR_BYTE_UNSIGNED_INTEGER"@,
            EncodeError::FourByteSignedOutOfRange => "FOUR_BYTE_SIGNED_INTEGER"@,
            EncodeError::EightByteUnsignedOutOfRange => "EIGHT_BYTE_UNSIGNED_INTEGER"@,
        }
    }

    /// The explanation that goes with `self`, as characters.
    pub open spec fn explanation(self) -> Seq<char> {
        match self {
            EncodeError::NoContacts => "touch frames must include at least one contact"@,
            EncodeError::TooManyContacts => "too many touch contacts"@,
            EncodeError::TooManyActiveContacts => "too many active touch contacts"@,
            EncodeError::OrientationOutOfRange => "touch orientation must be in the range 0..360"@,
            EncodeError::PressureOutOfRange => "touch pressure must be in the range 0..=1024"@,
            _ => "value is out of range"@,
        }
    }

    /// The path of the function that refuses, as errors of `ironrdp-core` give it.
    pub fn context(&self) -> (path: &'static str)
        ensures
            path@ == self.origin(),
    {
        match self {
            EncodeError::NoContacts => "ironrdp_rdpei::TouchFrame::new",
            EncodeError::TooManyContacts => "ironrdp_rdpei::TouchFrame::new",
            EncodeError::TooManyActiveContacts => "ironrdp_rdpei::validate_contact_count",
            EncodeError::OrientationOutOfRange => "ironrdp_rdpei::TouchContact::with_orientation",
            EncodeError::PressureOutOfRange => "ironrdp_rdpei::TouchContact::with_pressure",
            EncodeError::TwoByteUnsignedOutOfRange => "ironrdp_rdpei::write_2byte_unsigned",
            EncodeError::TwoByteSignedOutOfRange => "ironrdp_rdpei::write_2byte_signed",
            EncodeError::FourByteUnsignedOutOfRange => "ironrdp_rdpei::write_4byte_unsigned",
            EncodeError::FourByteSignedOutOfRange => "ironrdp_rdpei::write_4byte_signed",
            EncodeError::EightByteUnsignedOutOfRange => "ironrdp_rdpei::write_8byte_unsigned",
        }
    }

    /// The name of the offending field.
    pub fn field(&self) -> (name: &'static str)
        ensures
            name@ == self.field_name(),
    {
        match self {
            EncodeError::NoContacts => "contactCount",
            EncodeError::TooManyContacts => "contactCount",
            EncodeError::TooManyActiveContacts => "contactCount",
            EncodeError::OrientationOutOfRange => "orientation",
            EncodeError::PressureOutOfRange => "pressure",
            EncodeError::TwoByteUnsignedOutOfRange => "TWO_BYTE_UNSIGNED_INTEGER",
            EncodeError::TwoByteSignedOutOfRange => "TWO_BYTE_SIGNED_INTEGER",
            EncodeError::FourByteUnsignedOutOfRange => "FOUR_BYTE_UNSIGNED_INTEGER",
            EncodeError::FourByteSignedOutOfRange => "FOUR_BYTE_SIGNED_INTEGER",
            EncodeError::EightByteUnsignedOutOfRange => "EIGHT_BYTE_UNSIGNED_INTEGER",
        }
    }

    /// What is wrong with the field.
    pub fn reason(&self) -> (text: &'static str)
        ensures
            text@ == self.explanation(),
    {
        match self {
            EncodeError::NoContacts => "touch frames must include at least one contact",
            EncodeError::TooManyContacts => "too many touch contacts",
            EncodeError::TooManyActiveContacts => "too many active touch contacts",
            EncodeError::OrientationOutOfRange => "touch orientation must be in the range 0..360",
            EncodeError::PressureOutOfRange => "touch pressure must be in the range 0..=1024",
            _ => "value is out of range",
        }
    }

    /// The error of `ironrdp-core` that says the same.
    pub fn to_core(&self) -> (error: ironrdp_core::EncodeError)
        ensures
            error == rdp_core::invalid_encode_field_error(
                self.origin(),
                self.field_name(),
                self.explanation(),
                None,
            ),
    {
        rdp_core::invalid_encode_field(self.context(), self.field(), self.reason(), None)
    }
}

/// Why a server PDU could not be read.
#[derive(Debug, Clone, Copy, PartialEq, Eq, Structural)]
pub enum DecodeError {
    /// Fewer bytes than a header takes.
    HeaderTooShort,
    /// The announced PDU length does not even cover the header.
    PduLengthTooShort,
    /// An `SC_READY` without its protocol version.
    ScReadyTooShort,
}

impl DecodeError {
    /// The function that refuses, as characters.
    pub open spec fn origin(self) -> Seq<char> {
        "<ironrdp_rdpei::ServerPdu as ironrdp_core::decode::Decode<'_>>::decode"@
    }

    /// The field that `self` is about, as characters.
    pub open spec fn field_name(self) -> Seq<char> {
        match self {
            DecodeError::HeaderTooShort => "RDPEI_HEADER"@,
            DecodeError::PduLengthTooShort => "pduLength"@,
            DecodeError::ScReadyTooShort => "SC_READY"@,
        }
    }

    /// The explanation that goes with `self`, as characters.
    pub open spec fn explanation(self) -> Seq<char> {
        match self {
            DecodeError::HeaderTooShort => "not enough bytes for RDPEI header"@,
            DecodeError::PduLengthTooShort => "RDPEI PDU length is shorter than its header"@,
            DecodeError::ScReadyTooShort => "not enough bytes for SC_READY"@,
        }
    }

    /// The path of the function that refuses, as errors of `ironrdp-core` give it.
    pub fn context(&self) -> (path: &'static str)
        ensures
            path@ == self.origin(),
    {
        "<ironrdp_rdpei::ServerPdu as ironrdp_core::decode::Decode<'_>>::decode"
    }

    /// The name of the offending field.
    pub fn field(&self) -> (name: &'static str)
        ensures
            name@ == self.field_name(),
    {
        match self {
            DecodeError::HeaderTooShort => "RDPEI_HEADER",
            DecodeError::PduLengthTooShort => "pduLength",
            DecodeError::ScReadyTooShort => "SC_READY",
        }
    }

    /// What is wrong with the field.
    pub fn reason(&self) -> (text: &'static str)
        ensures
            text@ == self.explanation(),
    {
        match self {
            DecodeError::HeaderTooShort => "not enough bytes for RDPEI header",
            DecodeError::PduLengthTooShort => "RDPEI PDU length is shorter than its header",
            DecodeError::ScReadyTooShort => "not enough bytes for SC_READY",
        }
    }

    /// The error of `ironrdp-core` that says the same.
    pub fn to_core(&self) -> (error: ironrdp_core::DecodeError)
        ensures
            error == rdp_core::invalid_field_error(
                self.origin(),
                self.field_name(),
                self.explanation(),
                None,
            ),
    {
        rdp_core::invalid_field(self.context(), self.field(), self.reason(), None)
    }
}

} // verus!
