//! The PDUs of RDPEI: those that the client sends and those that it gets from the server.

use crate::constants::{
    EVENTID_CS_READY, EVENTID_RESUME_TOUCH, EVENTID_SC_READY, EVENTID_SUSPEND_TOUCH, EVENTID_TOUCH,
    RDPINPUT_HEADER_LENGTH, RDPINPUT_PROTOCOL_V300,
};
use crate::endian;
use crate::error::{DecodeError, EncodeError};
use crate::rdp_core;
use crate::reader;
use crate::touch;
use crate::touch::{FrameModel, TouchFrame};
use crate::varint;
use crate::varint::{write_2byte_unsigned, write_4byte_unsigned};
use ironrdp_core::{ReadCursor, WriteCursor};
use vstd::prelude::*;

verus! {

/// No payload of a client PDU is longer than this.
pub const MAX_PAYLOAD_LENGTH: usize = 0x20_0000;

/// Path of the encoder of [`RdpeiClientPdu`], as errors of `ironrdp-core` give it.
pub const ENCODE_CONTEXT: &'static str =
    "<ironrdp_rdpei::RdpeiClientPdu as ironrdp_core::encode::Encode>::encode";

/// What a [`RdpeiClientPdu`] says: its event and what goes behind the header.
#[verifier::ext_equal]
pub struct PduModel {
    pub event_id: u16,
    pub payload: Seq<u8>,
}

impl PduModel {
    /// The length of the whole PDU, header and payload.
    pub open spec fn length(self) -> nat {
        RDPINPUT_HEADER_LENGTH as nat + self.payload.len()
    }

    /// Wire form of a PDU: event identifier, length of the whole, payload.
    pub open spec fn bytes(self) -> Seq<u8> {
        endian::u16_bytes(self.event_id) + endian::u32_bytes(self.length() as u32) + self.payload
    }

    /// The client's answer to `SC_READY`.
    pub open spec fn cs_ready(
        flags: u32,
        protocol_version: u32,
        max_touch_contacts: u16,
    ) -> PduModel {
        PduModel {
            event_id: EVENTID_CS_READY,
            payload: endian::u32_bytes(flags) + endian::u32_bytes(protocol_version)
                + endian::u16_bytes(max_touch_contacts),
        }
    }

    /// A touch event that carries one frame.
    pub open spec fn touch(encode_time_ms: u32, frame: FrameModel) -> PduModel {
        PduModel {
            event_id: EVENTID_TOUCH,
            payload: varint::four_byte_unsigned(encode_time_ms as nat) + varint::two_byte_unsigned(
                1,
            ) + frame.bytes(),
        }
    }

    /// The error that stops the making of a touch event: that of the first part that does not fit.
    pub open spec fn touch_error(encode_time_ms: u32, frame: FrameModel) -> Option<EncodeError> {
        if encode_time_ms > varint::FOUR_BYTE_UNSIGNED_MAX {
            Some(EncodeError::FourByteUnsignedOutOfRange)
        } else {
            frame.error()
        }
    }
}

/// A PDU that the client sends.
#[derive(Debug)]
pub struct RdpeiClientPdu {
    event_id: u16,
    payload: Vec<u8>,
}

impl View for RdpeiClientPdu {
    type V = PduModel;

    closed spec fn view(&self) -> PduModel {
        PduModel { event_id: self.event_id, payload: self.payload@ }
    }
}

impl Clone for RdpeiClientPdu {
    fn clone(&self) -> (copy: Self)
        ensures
            copy@ == self@,
    {
        proof {
            use_type_invariant(self);
        }
        let payload = self.payload.clone();
        assert(payload@ =~= self.payload@);
        RdpeiClientPdu { event_id: self.event_id, payload }
    }
}

impl RdpeiClientPdu {
    /// The payload is short enough for the length field of the header.
    #[verifier::type_invariant]
    spec fn inv(self) -> bool {
        self.payload@.len() <= MAX_PAYLOAD_LENGTH
    }

    /// The client's answer to `SC_READY`: what it makes use of, the protocol version that it
    /// speaks, and how many contacts it can track.
    #[must_use]
    pub fn cs_ready(flags: u32, protocol_version: u32, max_touch_contacts: u16) -> (pdu: Self)
        ensures
            pdu@ == PduModel::cs_ready(flags, protocol_version, max_touch_contacts),
    {
        let mut payload: Vec<u8> = Vec::with_capacity(10);
        endian::push_u32(&mut payload, flags);
        endian::push_u32(&mut payload, protocol_version);
        endian::push_u16(&mut payload, max_touch_contacts);
        let pdu = RdpeiClientPdu { event_id: EVENTID_CS_READY, payload };
        assert(pdu@.payload =~= PduModel::cs_ready(
            flags,
            protocol_version,
            max_touch_contacts,
        ).payload);
        pdu
    }

    /// A touch event that carries one frame, and that reads back as that frame.
    pub fn touch(encode_time_ms: u32, frame: TouchFrame) -> (result: Result<Self, EncodeError>)
        ensures
            match PduModel::touch_error(encode_time_ms, frame@) {
                None => result matches Ok(pdu) && pdu@ == PduModel::touch(encode_time_ms, frame@)
                    && reader::read_touch(pdu@.payload) == Some(
                    (encode_time_ms, frame@, Seq::<u8>::empty()),
                ),
                Some(e) => result == Err::<Self, EncodeError>(e),
            },
    {
        let mut payload: Vec<u8> = Vec::with_capacity(64 + frame.contact_count() * 64);
        write_4byte_unsigned(&mut payload, encode_time_ms)?;
        write_2byte_unsigned(&mut payload, 1)?;
        frame.encode_payload(&mut payload)?;
        proof {
            assert(payload@ =~= PduModel::touch(encode_time_ms, frame@).payload);
            touch::lemma_frame_length(frame@);
            varint::lemma_lengths(1, 0, encode_time_ms, 0, 0);
            reader::touch_reads_back(encode_time_ms, frame@);
        }
        Ok(RdpeiClientPdu { event_id: EVENTID_TOUCH, payload })
    }
}

impl ironrdp_core::Encode for RdpeiClientPdu {
    /// Writes the PDU. Where there is no room for it, nothing is written.
    fn encode(&self, dst: &mut WriteCursor<'_>) -> (result: Result<(), ironrdp_core::EncodeError>)
        ensures
            rdp_core::room(*old(dst)) >= self@.length() ==> result is Ok && rdp_core::wrote(
                *old(dst),
                *final(dst),
                self@.bytes(),
            ),
            rdp_core::room(*old(dst)) < self@.length() ==> *final(dst) == *old(dst) && (result
                matches Err(e) && e == rdp_core::not_enough_bytes_error(
                ENCODE_CONTEXT@,
                rdp_core::room(*old(dst)) as usize,
                if rdp_core::room(*old(dst)) < RDPINPUT_HEADER_LENGTH {
                    RDPINPUT_HEADER_LENGTH
                } else {
                    self@.length() as usize
                },
                Some(rdp_core::position(*old(dst)) as usize),
            )),
    {
        proof {
            use_type_invariant(self);
        }
        let total = dst.inner().len();
        let pos = dst.pos();
        let room: usize = if pos <= total {
            total - pos
        } else {
            0
        };
        let size = self.size();
        if room < size {
            let expected: usize = if room < RDPINPUT_HEADER_LENGTH {
                RDPINPUT_HEADER_LENGTH
            } else {
                size
            };
            return Err(rdp_core::not_enough_bytes(ENCODE_CONTEXT, room, expected, Some(pos)));
        }
        dst.write_u16(self.event_id);
        dst.write_u32(size as u32);
        dst.write_slice(self.payload.as_slice());
        assert(rdp_core::buffer(*dst) =~= rdp_core::buffer(*old(dst)).take(pos as int) + self@.bytes()
            + rdp_core::buffer(*old(dst)).skip(pos + self@.length()));
        Ok(())
    }

    /// The name of the PDU in messages.
    fn name(&self) -> (name: &'static str)
        ensures
            name@ == "RDPEI_CLIENT_PDU"@,
    {
        "RDPEI_CLIENT_PDU"
    }

    /// The length of the whole PDU, which is a length that its header can hold.
    fn size(&self) -> (size: usize)
        ensures
            size == self@.length(),
            size == self@.bytes().len(),
            size <= u32::MAX,
    {
        proof {
            use_type_invariant(self);
        }
        RDPINPUT_HEADER_LENGTH + self.payload.len()
    }
}

impl ironrdp_dvc::DvcEncode for RdpeiClientPdu {

}

/// A PDU that the server sends.
#[derive(Debug, Clone, Copy, PartialEq, Eq, Structural)]
pub enum ServerPdu {
    /// The server is there: its protocol version and what it supports.
    ScReady { protocol_version: u32, features: u32 },
    /// The client shall not send touch events.
    SuspendTouch,
    /// The client may send touch events again.
    ResumeTouch,
    /// A PDU that a touch client has no use for.
    Unknown { event_id: u16, pdu_length: u32 },
}

/// The server PDU that `s` starts with.
pub open spec fn parse_server_pdu(s: Seq<u8>) -> Result<ServerPdu, DecodeError> {
    if s.len() < RDPINPUT_HEADER_LENGTH {
        Err(DecodeError::HeaderTooShort)
    } else {
        let event_id = endian::read_u16(s);
        let pdu_length = endian::read_u32(s.skip(2));
        if pdu_length < RDPINPUT_HEADER_LENGTH {
            Err(DecodeError::PduLengthTooShort)
        } else if event_id == EVENTID_SC_READY {
            if s.len() < 10 {
                Err(DecodeError::ScReadyTooShort)
            } else {
                Ok(
                    ServerPdu::ScReady {
                        protocol_version: endian::read_u32(s.skip(6)),
                        features: if has_features(s) {
                            endian::read_u32(s.skip(10))
                        } else {
                            0
                        },
                    },
                )
            }
        } else if event_id == EVENTID_SUSPEND_TOUCH {
            Ok(ServerPdu::SuspendTouch)
        } else if event_id == EVENTID_RESUME_TOUCH {
            Ok(ServerPdu::ResumeTouch)
        } else {
            Ok(ServerPdu::Unknown { event_id, pdu_length })
        }
    }
}

/// The `SC_READY` that `s` starts with has the features field, which came with version 3.0.
pub open spec fn has_features(s: Seq<u8>) -> bool {
    endian::read_u32(s.skip(6)) >= RDPINPUT_PROTOCOL_V300 && s.len() >= 14
}

/// How many bytes of `s` are read, whether a PDU comes out or not.
pub open spec fn parsed_length(s: Seq<u8>) -> int {
    if s.len() < RDPINPUT_HEADER_LENGTH {
        0
    } else if parse_server_pdu(s) is Ok && endian::read_u16(s) == EVENTID_SC_READY {
        if has_features(s) {
            14
        } else {
            10
        }
    } else {
        6
    }
}

impl ServerPdu {
    /// Reads a server PDU, with the errors of this crate.
    pub fn from_cursor(src: &mut ReadCursor<'_>) -> (result: Result<ServerPdu, DecodeError>)
        ensures
            result == parse_server_pdu(rdp_core::unread(*old(src))),
            rdp_core::unread(*final(src)) == rdp_core::unread(*old(src)).skip(
                parsed_length(rdp_core::unread(*old(src))),
            ),
    {
        let ghost bytes = rdp_core::unread(*src);
        if src.len() < RDPINPUT_HEADER_LENGTH {
            assert(bytes.skip(0) =~= bytes);
            return Err(DecodeError::HeaderTooShort);
        }
        let event_id = src.read_u16();
        let pdu_length = src.read_u32();
        assert(rdp_core::unread(*src) =~= bytes.skip(6));
        if pdu_length < RDPINPUT_HEADER_LENGTH as u32 {
            return Err(DecodeError::PduLengthTooShort);
        }
        match event_id {
            EVENTID_SC_READY => {
                if src.len() < 4 {
                    return Err(DecodeError::ScReadyTooShort);
                }
                let protocol_version = src.read_u32();
                assert(rdp_core::unread(*src) =~= bytes.skip(10));
                let features: u32 = if protocol_version >= RDPINPUT_PROTOCOL_V300 && src.len() >= 4 {
                    src.read_u32()
                } else {
                    0
                };
                assert(has_features(bytes) ==> rdp_core::unread(*src) =~= bytes.skip(14));
                Ok(ServerPdu::ScReady { protocol_version, features })
            },
            EVENTID_SUSPEND_TOUCH => Ok(ServerPdu::SuspendTouch),
            EVENTID_RESUME_TOUCH => Ok(ServerPdu::ResumeTouch),
            _ => Ok(ServerPdu::Unknown { event_id, pdu_length }),
        }
    }
}

impl<'de> ironrdp_core::Decode<'de> for ServerPdu {
    /// Reads a server PDU, with the errors of `ironrdp-core`.
    fn decode(src: &mut ReadCursor<'de>) -> (result: Result<ServerPdu, ironrdp_core::DecodeError>)
        ensures
            match parse_server_pdu(rdp_core::unread(*old(src))) {
                Ok(pdu) => result == Ok::<ServerPdu, ironrdp_core::DecodeError>(pdu),
                Err(e) => result == Err::<ServerPdu, ironrdp_core::DecodeError>(
                    rdp_core::invalid_field_error(
                        e.origin(),
                        e.field_name(),
                        e.explanation(),
                        None,
                    ),
                ),
            },
            rdp_core::unread(*final(src)) == rdp_core::unread(*old(src)).skip(
                parsed_length(rdp_core::unread(*old(src))),
            ),
    {
        match ServerPdu::from_cursor(src) {
            Ok(pdu) => Ok(pdu),
            Err(e) => Err(e.to_core()),
        }
    }
}

} // verus!
