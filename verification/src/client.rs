//! The client end of the RDPEI channel.

use crate::constants::{
    CHANNEL_NAME, CS_READY_FLAGS_DISABLE_TIMESTAMP_INJECTION,
    CS_READY_FLAGS_ENABLE_MULTIPEN_INJECTION, CS_READY_FLAGS_SHOW_TOUCH_VISUALS,
    DEFAULT_MAX_TOUCH_CONTACTS, RDPINPUT_CONTACT_FLAG_CANCELED, RDPINPUT_CONTACT_FLAG_DOWN,
    RDPINPUT_CONTACT_FLAG_INCONTACT, RDPINPUT_CONTACT_FLAG_INRANGE, RDPINPUT_CONTACT_FLAG_UP,
    RDPINPUT_CONTACT_FLAG_UPDATE, RDPINPUT_PROTOCOL_V10, RDPINPUT_PROTOCOL_V300,
    SC_READY_MULTIPEN_INJECTION_SUPPORTED,
};
use crate::dvc;
use crate::error::{DecodeError, EncodeError};
use crate::laws;
use crate::pdu;
use crate::pdu::{PduModel, RdpeiClientPdu, ServerPdu};
use crate::reader;
use crate::touch;
use crate::touch::{ContactModel, FrameModel, TouchContact, TouchFrame};
use ironrdp_core::ReadCursor;
use ironrdp_svc::SvcMessage;
use vstd::prelude::*;

verus! {

/// What a [`RdpeiClient`] knows.
pub struct ClientState {
    /// How many contacts the client says it can track.
    pub max_touch_contacts: u16,
    /// The `CS_READY` flags that the client is willing to set.
    pub client_features_mask: u32,
    /// The protocol version of the server, once it is there.
    pub server_version: Option<u32>,
    /// What the server supports.
    pub server_features: u32,
    /// The server does not want touch events for now.
    pub suspended: bool,
}

impl ClientState {
    /// Before anything came from the server, with the default settings.
    pub open spec fn initial() -> ClientState {
        ClientState {
            max_touch_contacts: DEFAULT_MAX_TOUCH_CONTACTS,
            client_features_mask: CS_READY_FLAGS_DISABLE_TIMESTAMP_INJECTION,
            server_version: None,
            server_features: 0,
            suspended: false,
        }
    }

    /// The server is there and wants touch events.
    pub open spec fn ready(self) -> bool {
        self.server_version is Some && !self.suspended
    }

    /// The protocol version that the client speaks: the server's, or the newest one.
    pub open spec fn version(self) -> u32 {
        match self.server_version {
            Some(version) => version,
            None => RDPINPUT_PROTOCOL_V300,
        }
    }

    /// The `CS_READY` flags that the version and the server's features allow.
    pub open spec fn allowed_flags(self) -> u32 {
        (CS_READY_FLAGS_SHOW_TOUCH_VISUALS + (if self.version() > RDPINPUT_PROTOCOL_V10 {
            CS_READY_FLAGS_DISABLE_TIMESTAMP_INJECTION
        } else {
            0
        }) + (if self.server_features & SC_READY_MULTIPEN_INJECTION_SUPPORTED != 0 {
            CS_READY_FLAGS_ENABLE_MULTIPEN_INJECTION
        } else {
            0
        })) as u32
    }

    /// The `CS_READY` of this state: of the allowed flags those that the client is willing to set.
    pub open spec fn cs_ready(self) -> PduModel {
        PduModel::cs_ready(
            self.allowed_flags() & self.client_features_mask,
            self.version(),
            self.max_touch_contacts,
        )
    }

    /// The state after a server PDU.
    pub open spec fn after(self, pdu: ServerPdu) -> ClientState {
        match pdu {
            ServerPdu::ScReady { protocol_version, features } => ClientState {
                server_version: Some(protocol_version),
                server_features: features,
                suspended: false,
                ..self
            },
            ServerPdu::SuspendTouch => ClientState { suspended: true, ..self },
            ServerPdu::ResumeTouch => ClientState { suspended: false, ..self },
            ServerPdu::Unknown { .. } => self,
        }
    }

    /// What the client answers to a server PDU: it answers only `SC_READY`.
    pub open spec fn answers(self, pdu: ServerPdu) -> Seq<PduModel> {
        if pdu is ScReady {
            seq![self.after(pdu).cs_ready()]
        } else {
            Seq::empty()
        }
    }

    /// The error that stops the sending of a frame: too many contacts, a frame that cannot be made,
    /// or one that cannot be encoded.
    pub open spec fn frame_error(self, encode_time_ms: u32, frame: FrameModel) -> Option<
        EncodeError,
    > {
        if frame.contacts.len() > self.max_touch_contacts {
            Some(EncodeError::TooManyActiveContacts)
        } else if FrameModel::creation_error(frame.contacts.len()) is Some {
            FrameModel::creation_error(frame.contacts.len())
        } else {
            PduModel::touch_error(encode_time_ms, frame)
        }
    }

    /// The error that stops the sending of a single contact: the pressure first, then the number of
    /// contacts, then the contact.
    pub open spec fn gesture_error(self, contact: ContactModel) -> Option<EncodeError> {
        if too_much(contact.pressure) {
            Some(EncodeError::PressureOutOfRange)
        } else {
            self.frame_error(0, frame_of(contact))
        }
    }
}

/// The error that stops the ending of a contact: as for any other single contact, without a look at
/// the number of contacts.
pub open spec fn ending_error(contact: ContactModel) -> Option<EncodeError> {
    if too_much(contact.pressure) {
        Some(EncodeError::PressureOutOfRange)
    } else {
        PduModel::touch_error(0, frame_of(contact))
    }
}

/// A contact with a pressure or without.
pub open spec fn pressed(
    contact_id: u8,
    x: i32,
    y: i32,
    contact_flags: u32,
    pressure: Option<u32>,
) -> ContactModel {
    ContactModel { pressure, ..ContactModel::at(contact_id, x, y, contact_flags) }
}

/// There is a pressure and it is off the scale.
pub open spec fn too_much(pressure: Option<u32>) -> bool {
    pressure matches Some(p) && p > 1024
}

/// A frame of one contact, at once.
pub open spec fn frame_of(contact: ContactModel) -> FrameModel {
    FrameModel { frame_offset_ms: 0, contacts: seq![contact] }
}

/// Flags of a contact that comes down.
pub open spec fn begin_flags() -> u32 {
    (RDPINPUT_CONTACT_FLAG_DOWN + RDPINPUT_CONTACT_FLAG_INRANGE
        + RDPINPUT_CONTACT_FLAG_INCONTACT) as u32
}

/// Flags of a contact that is down and moves.
pub open spec fn update_flags() -> u32 {
    (RDPINPUT_CONTACT_FLAG_UPDATE + RDPINPUT_CONTACT_FLAG_INRANGE
        + RDPINPUT_CONTACT_FLAG_INCONTACT) as u32
}

/// Flags of a contact that does not count any more.
pub open spec fn cancel_flags() -> u32 {
    (RDPINPUT_CONTACT_FLAG_UPDATE + RDPINPUT_CONTACT_FLAG_CANCELED) as u32
}

/// Client processor for the RDPEI dynamic virtual channel.
#[derive(Debug)]
pub struct RdpeiClient {
    max_touch_contacts: u16,
    client_features_mask: u32,
    server_version: Option<u32>,
    server_features: u32,
    suspended: bool,
}

impl View for RdpeiClient {
    type V = ClientState;

    closed spec fn view(&self) -> ClientState {
        ClientState {
            max_touch_contacts: self.max_touch_contacts,
            client_features_mask: self.client_features_mask,
            server_version: self.server_version,
            server_features: self.server_features,
            suspended: self.suspended,
        }
    }
}

impl Clone for RdpeiClient {
    fn clone(&self) -> (copy: Self)
        ensures
            copy@ == self@,
    {
        RdpeiClient {
            max_touch_contacts: self.max_touch_contacts,
            client_features_mask: self.client_features_mask,
            server_version: self.server_version,
            server_features: self.server_features,
            suspended: self.suspended,
        }
    }
}

impl Default for RdpeiClient {
    fn default() -> (client: Self)
        ensures
            client@ == ClientState::initial(),
    {
        RdpeiClient::new()
    }
}

impl RdpeiClient {
    /// A client with the default settings that has not heard of the server yet.
    #[must_use]
    pub fn new() -> (client: Self)
        ensures
            client@ == ClientState::initial(),
    {
        RdpeiClient {
            max_touch_contacts: DEFAULT_MAX_TOUCH_CONTACTS,
            client_features_mask: CS_READY_FLAGS_DISABLE_TIMESTAMP_INJECTION,
            server_version: None,
            server_features: 0,
            suspended: false,
        }
    }

    /// The same client with another number of contacts.
    #[must_use]
    pub fn with_max_touch_contacts(self, max_touch_contacts: u16) -> (client: Self)
        ensures
            client@ == (ClientState { max_touch_contacts, ..self@ }),
    {
        RdpeiClient { max_touch_contacts, ..self }
    }

    /// The same client with other flags that it is willing to set.
    #[must_use]
    pub fn with_client_features_mask(self, client_features_mask: u32) -> (client: Self)
        ensures
            client@ == (ClientState { client_features_mask, ..self@ }),
    {
        RdpeiClient { client_features_mask, ..self }
    }

    /// The server is there and wants touch events.
    #[must_use]
    pub fn is_ready(&self) -> (ready: bool)
        ensures
            ready == self@.ready(),
    {
        self.server_version.is_some() && !self.suspended
    }

    /// The server does not want touch events for now.
    #[must_use]
    pub fn is_suspended(&self) -> (suspended: bool)
        ensures
            suspended == self@.suspended,
    {
        self.suspended
    }

    /// The protocol version of the server, once it is there.
    #[must_use]
    pub fn server_version(&self) -> (version: Option<u32>)
        ensures
            version == self@.server_version,
    {
        self.server_version
    }

    /// What the server supports.
    #[must_use]
    pub fn server_features(&self) -> (features: u32)
        ensures
            features == self@.server_features,
    {
        self.server_features
    }

    /// Encodes an arbitrary touch frame for the assigned RDPEI dynamic channel. What is sent reads
    /// back as the time and the frame, and everything within limits is sent.
    pub fn encode_touch_frame(
        &self,
        channel_id: u32,
        encode_time_ms: u32,
        frame_offset_ms: u64,
        contacts: &[TouchContact],
    ) -> (result: Result<Vec<SvcMessage>, EncodeError>)
        ensures
            ({
                let frame = FrameModel {
                    frame_offset_ms,
                    contacts: touch::contact_models(contacts@),
                };
                match self@.frame_error(encode_time_ms, frame) {
                    Some(e) => result == Err::<Vec<SvcMessage>, EncodeError>(e),
                    None => dvc::sent(
                        result,
                        channel_id,
                        seq![PduModel::touch(encode_time_ms, frame)],
                    ) && reader::read_touch(PduModel::touch(encode_time_ms, frame).payload) == Some(
                        (encode_time_ms, frame, Seq::<u8>::empty()),
                    ),
                }
            }),
            result is Ok <==> 1 <= contacts@.len() <= self@.max_touch_contacts
                && laws::within_limits(
                encode_time_ms,
                FrameModel { frame_offset_ms, contacts: touch::contact_models(contacts@) },
            ),
            result matches Ok(messages) ==> messages@ == dvc::dvc_messages(
                channel_id,
                seq![
                    PduModel::touch(
                        encode_time_ms,
                        (FrameModel {
                            frame_offset_ms,
                            contacts: contacts@.map_values(|contact: TouchContact| contact@),
                        }),
                    ).bytes(),
                ],
                0,
            ),
    {
        validate_contact_count(contacts.len(), self.max_touch_contacts)?;
        let mut owned: Vec<TouchContact> = Vec::with_capacity(contacts.len());
        let mut i: usize = 0;
        while i < contacts.len()
            invariant
                i <= contacts.len(),
                owned@ == contacts@.take(i as int),
                forall|k: int| 0 <= k < i ==> (#[trigger] contacts@[k])@.valid(),
            decreases contacts.len() - i,
        {
            owned.push(contacts[i].clone());
            i = i + 1;
            assert(owned@ =~= contacts@.take(i as int));
        }
        assert(owned@ =~= contacts@);
        proof {
            let frame = FrameModel { frame_offset_ms, contacts: touch::contact_models(contacts@) };
            let pdu = PduModel::touch(encode_time_ms, frame);
            laws::frames_succeed_iff(self@, encode_time_ms, frame);
            dvc::lemma_wire_forms(pdu, pdu);
            assert(frame.contacts =~= contacts@.map_values(|contact: TouchContact| contact@));
        }
        let pdu = RdpeiClientPdu::touch(encode_time_ms, TouchFrame::new(frame_offset_ms, owned)?)?;
        let pdus = vec![pdu];
        assert(dvc::pdu_models(pdus@) =~= seq![pdu@]);
        send(channel_id, pdus)
    }

    /// Encodes a contact that comes down.
    pub fn encode_touch_begin(
        &self,
        channel_id: u32,
        contact_id: u8,
        x: i32,
        y: i32,
        pressure: Option<u32>,
    ) -> (result: Result<Vec<SvcMessage>, EncodeError>)
        ensures
            ({
                let contact = pressed(contact_id, x, y, begin_flags(), pressure);
                match self@.gesture_error(contact) {
                    Some(e) => result == Err::<Vec<SvcMessage>, EncodeError>(e),
                    None => dvc::sent(
                        result,
                        channel_id,
                        seq![PduModel::touch(0, frame_of(contact))],
                    ),
                }
            }),
            result is Ok <==> self@.max_touch_contacts >= 1 && (pressure matches Some(p) ==> p <= 1024) && -16381
                <= x <= 16381 && -16381 <= y <= 16381,
            result matches Ok(messages) ==> messages@ == dvc::dvc_messages(
                channel_id,
                seq![
                    PduModel::touch(
                        0,
                        (FrameModel { frame_offset_ms: 0, contacts: seq![(ContactModel {
                            contact_id,
                            x,
                            y,
                            contact_flags: RDPINPUT_CONTACT_FLAG_DOWN | RDPINPUT_CONTACT_FLAG_INRANGE
                                | RDPINPUT_CONTACT_FLAG_INCONTACT,
                            rect: touch::rect_around(x, y),
                            orientation: None,
                            pressure,
                        })] }),
                    ).bytes(),
                ],
                0,
            ),
    {
        proof {
            lemma_flags();
            let contact = pressed(contact_id, x, y, begin_flags(), pressure);
            laws::gestures_succeed_iff(self@, contact_id, x, y, pressure);
            dvc::lemma_wire_forms(
                PduModel::touch(0, frame_of(contact)),
                PduModel::touch(0, frame_of(contact)),
            );
        }
        let contact = TouchContact::new(
            contact_id,
            x,
            y,
            RDPINPUT_CONTACT_FLAG_DOWN | RDPINPUT_CONTACT_FLAG_INRANGE
                | RDPINPUT_CONTACT_FLAG_INCONTACT,
        ).with_pressure_opt(pressure)?;
        let contacts = vec![contact];
        assert(touch::contact_models(contacts@) =~= frame_of(contact@).contacts);
        self.encode_touch_frame(channel_id, 0, 0, contacts.as_slice())
    }

    /// Encodes a contact that is down and moves.
    pub fn encode_touch_update(
        &self,
        channel_id: u32,
        contact_id: u8,
        x: i32,
        y: i32,
        pressure: Option<u32>,
    ) -> (result: Result<Vec<SvcMessage>, EncodeError>)
        ensures
            ({
                let contact = pressed(contact_id, x, y, update_flags(), pressure);
                match self@.gesture_error(contact) {
                    Some(e) => result == Err::<Vec<SvcMessage>, EncodeError>(e),
                    None => dvc::sent(
                        result,
                        channel_id,
                        seq![PduModel::touch(0, frame_of(contact))],
                    ),
                }
            }),
            result is Ok <==> self@.max_touch_contacts >= 1 && (pressure matches Some(p) ==> p <= 1024) && -16381
                <= x <= 16381 && -16381 <= y <= 16381,
            result matches Ok(messages) ==> messages@ == dvc::dvc_messages(
                channel_id,
                seq![
                    PduModel::touch(
                        0,
                        (FrameModel { frame_offset_ms: 0, contacts: seq![(ContactModel {
                            contact_id,
                            x,
                            y,
                            contact_flags: RDPINPUT_CONTACT_FLAG_UPDATE | RDPINPUT_CONTACT_FLAG_INRANGE
                                | RDPINPUT_CONTACT_FLAG_INCONTACT,
                            rect: touch::rect_around(x, y),
                            orientation: None,
                            pressure,
                        })] }),
                    ).bytes(),
                ],
                0,
            ),
    {
        proof {
            lemma_flags();
            let contact = pressed(contact_id, x, y, update_flags(), pressure);
            laws::gestures_succeed_iff(self@, contact_id, x, y, pressure);
            dvc::lemma_wire_forms(
                PduModel::touch(0, frame_of(contact)),
                PduModel::touch(0, frame_of(contact)),
            );
        }
        let contact = TouchContact::new(
            contact_id,
            x,
            y,
            RDPINPUT_CONTACT_FLAG_UPDATE | RDPINPUT_CONTACT_FLAG_INRANGE
                | RDPINPUT_CONTACT_FLAG_INCONTACT,
        ).with_pressure_opt(pressure)?;
        let contacts = vec![contact];
        assert(touch::contact_models(contacts@) =~= frame_of(contact@).contacts);
        self.encode_touch_frame(channel_id, 0, 0, contacts.as_slice())
    }

    /// Encodes the two steps in which a contact goes from engaged to out of range: a last update,
    /// and then up. The number of contacts that the client announced plays no part here.
    pub fn encode_touch_end(
        &self,
        channel_id: u32,
        contact_id: u8,
        x: i32,
        y: i32,
        pressure: Option<u32>,
    ) -> (result: Result<Vec<SvcMessage>, EncodeError>)
        ensures
            ({
                let update = pressed(contact_id, x, y, update_flags(), pressure);
                let up = pressed(contact_id, x, y, RDPINPUT_CONTACT_FLAG_UP, pressure);
                match ending_error(update) {
                    Some(e) => result == Err::<Vec<SvcMessage>, EncodeError>(e),
                    None => dvc::sent(
                        result,
                        channel_id,
                        seq![PduModel::touch(0, frame_of(update)), PduModel::touch(0, frame_of(up))],
                    ),
                }
            }),
            result is Ok <==> (pressure matches Some(p) ==> p <= 1024) && -16381
                <= x <= 16381 && -16381 <= y <= 16381,
            result matches Ok(messages) ==> messages@ == dvc::dvc_messages(
                channel_id,
                seq![
                    PduModel::touch(
                        0,
                        (FrameModel { frame_offset_ms: 0, contacts: seq![(ContactModel {
                            contact_id,
                            x,
                            y,
                            contact_flags: RDPINPUT_CONTACT_FLAG_UPDATE | RDPINPUT_CONTACT_FLAG_INRANGE
                                | RDPINPUT_CONTACT_FLAG_INCONTACT,
                            rect: touch::rect_around(x, y),
                            orientation: None,
                            pressure,
                        })] }),
                    ).bytes(),
                    PduModel::touch(
                        0,
                        (FrameModel { frame_offset_ms: 0, contacts: seq![(ContactModel {
                            contact_id,
                            x,
                            y,
                            contact_flags: RDPINPUT_CONTACT_FLAG_UP,
                            rect: touch::rect_around(x, y),
                            orientation: None,
                            pressure,
                        })] }),
                    ).bytes(),
                ],
                0,
            ),
    {
        proof {
            lemma_flags();
            let update = pressed(contact_id, x, y, update_flags(), pressure);
            let up = pressed(contact_id, x, y, RDPINPUT_CONTACT_FLAG_UP, pressure);
            laws::ending_succeeds_iff(self@, contact_id, x, y, pressure);
            dvc::lemma_wire_forms(
                PduModel::touch(0, frame_of(update)),
                PduModel::touch(0, frame_of(up)),
            );
        }
        let update = TouchContact::new(
            contact_id,
            x,
            y,
            RDPINPUT_CONTACT_FLAG_UPDATE | RDPINPUT_CONTACT_FLAG_INRANGE
                | RDPINPUT_CONTACT_FLAG_INCONTACT,
        ).with_pressure_opt(pressure)?;
        let up = TouchContact::new(contact_id, x, y, RDPINPUT_CONTACT_FLAG_UP).with_pressure_opt(
            pressure,
        )?;
        let update_contacts = vec![update];
        assert(touch::contact_models(update_contacts@) =~= frame_of(update@).contacts);
        let up_contacts = vec![up];
        assert(touch::contact_models(up_contacts@) =~= frame_of(up@).contacts);
        proof {
            lemma_single_contact_error(update@);
            lemma_single_contact_error(up@);
        }
        let update_pdu = RdpeiClientPdu::touch(0, TouchFrame::new(0, update_contacts)?)?;
        let up_pdu = RdpeiClientPdu::touch(0, TouchFrame::new(0, up_contacts)?)?;
        let pdus = vec![update_pdu, up_pdu];
        assert(dvc::pdu_models(pdus@) =~= seq![update_pdu@, up_pdu@]);
        send(channel_id, pdus)
    }

    /// Encodes a contact that does not count any more.
    pub fn encode_touch_cancel(
        &self,
        channel_id: u32,
        contact_id: u8,
        x: i32,
        y: i32,
        pressure: Option<u32>,
    ) -> (result: Result<Vec<SvcMessage>, EncodeError>)
        ensures
            ({
                let contact = pressed(contact_id, x, y, cancel_flags(), pressure);
                match self@.gesture_error(contact) {
                    Some(e) => result == Err::<Vec<SvcMessage>, EncodeError>(e),
                    None => dvc::sent(
                        result,
                        channel_id,
                        seq![PduModel::touch(0, frame_of(contact))],
                    ),
                }
            }),
            result is Ok <==> self@.max_touch_contacts >= 1 && (pressure matches Some(p) ==> p <= 1024) && -16381
                <= x <= 16381 && -16381 <= y <= 16381,
            result matches Ok(messages) ==> messages@ == dvc::dvc_messages(
                channel_id,
                seq![
                    PduModel::touch(
                        0,
                        (FrameModel { frame_offset_ms: 0, contacts: seq![(ContactModel {
                            contact_id,
                            x,
                            y,
                            contact_flags: RDPINPUT_CONTACT_FLAG_UPDATE | RDPINPUT_CONTACT_FLAG_CANCELED,
                            rect: touch::rect_around(x, y),
                            orientation: None,
                            pressure,
                        })] }),
                    ).bytes(),
                ],
                0,
            ),
    {
        proof {
            lemma_flags();
            let contact = pressed(contact_id, x, y, cancel_flags(), pressure);
            laws::gestures_succeed_iff(self@, contact_id, x, y, pressure);
            dvc::lemma_wire_forms(
                PduModel::touch(0, frame_of(contact)),
                PduModel::touch(0, frame_of(contact)),
            );
        }
        let contact = TouchContact::new(
            contact_id,
            x,
            y,
            RDPINPUT_CONTACT_FLAG_UPDATE | RDPINPUT_CONTACT_FLAG_CANCELED,
        ).with_pressure_opt(pressure)?;
        let contacts = vec![contact];
        assert(touch::contact_models(contacts@) =~= frame_of(contact@).contacts);
        self.encode_touch_frame(channel_id, 0, 0, contacts.as_slice())
    }

    /// The `CS_READY` of the client as it is.
    fn cs_ready_pdu(&self) -> (pdu: RdpeiClientPdu)
        ensures
            pdu@ == self@.cs_ready(),
    {
        let version: u32 = match self.server_version {
            Some(version) => version,
            None => RDPINPUT_PROTOCOL_V300,
        };
        let mut flags: u32 = CS_READY_FLAGS_SHOW_TOUCH_VISUALS & self.client_features_mask;
        if version > RDPINPUT_PROTOCOL_V10 {
            flags = flags | (CS_READY_FLAGS_DISABLE_TIMESTAMP_INJECTION & self.client_features_mask);
        }
        if self.server_features & SC_READY_MULTIPEN_INJECTION_SUPPORTED != 0 {
            flags = flags | (CS_READY_FLAGS_ENABLE_MULTIPEN_INJECTION & self.client_features_mask);
        }
        proof {
            let mask = self.client_features_mask;
            assert((1 & mask) | (2 & mask) == 3 & mask && (1 & mask) | (4 & mask) == 5 & mask && (1
                & mask) | (2 & mask) | (4 & mask) == 7 & mask) by (bit_vector);
        }
        RdpeiClientPdu::cs_ready(flags, version, self.max_touch_contacts)
    }

    /// The name under which the channel is opened.
    pub fn channel_name(&self) -> (name: &'static str)
        ensures
            name@ == CHANNEL_NAME@,
    {
        CHANNEL_NAME
    }

    /// Nothing is sent before the server has spoken.
    pub fn start(&mut self, _channel_id: u32) -> (pdus: Vec<RdpeiClientPdu>)
        ensures
            pdus@.len() == 0,
            *final(self) == *old(self),
    {
        Vec::new()
    }

    /// Takes in what the server sent and gives what is to be sent back. A payload that cannot be
    /// read changes nothing.
    pub fn process(&mut self, _channel_id: u32, payload: &[u8]) -> (result: Result<
        Vec<RdpeiClientPdu>,
        DecodeError,
    >)
        ensures
            match pdu::parse_server_pdu(payload@) {
                Ok(pdu) => {
                    &&& result matches Ok(answers) && answers@.len() == old(self)@.answers(
                        pdu,
                    ).len() && dvc::pdu_models(answers@) == old(self)@.answers(pdu)
                    &&& final(self)@ == old(self)@.after(pdu)
                },
                Err(e) => result == Err::<Vec<RdpeiClientPdu>, DecodeError>(e) && final(self)@
                    == old(self)@,
            },
    {
        let mut src = ReadCursor::new(payload);
        let pdu = ServerPdu::from_cursor(&mut src)?;
        Ok(self.handle(pdu))
    }

    /// Takes in a server PDU and gives what is to be sent back.
    pub fn handle(&mut self, pdu: ServerPdu) -> (answers: Vec<RdpeiClientPdu>)
        ensures
            answers@.len() == old(self)@.answers(pdu).len(),
            dvc::pdu_models(answers@) == old(self)@.answers(pdu),
            final(self)@ == old(self)@.after(pdu),
            answers@.len() == if pdu is ScReady {
                1int
            } else {
                0
            },
            final(self)@.max_touch_contacts == old(self)@.max_touch_contacts,
            final(self)@.client_features_mask == old(self)@.client_features_mask,
            final(self)@.suspended == match pdu {
                ServerPdu::SuspendTouch => true,
                ServerPdu::Unknown { .. } => old(self)@.suspended,
                _ => false,
            },
            match pdu {
                ServerPdu::ScReady { protocol_version, features } => final(self)@.server_version
                    == Some(protocol_version) && final(self)@.server_features == features,
                _ => final(self)@.server_version == old(self)@.server_version
                    && final(self)@.server_features == old(self)@.server_features,
            },
    {
        let mut answers: Vec<RdpeiClientPdu> = Vec::new();
        match pdu {
            ServerPdu::ScReady { protocol_version, features } => {
                self.server_version = Some(protocol_version);
                self.server_features = features;
                self.suspended = false;
                answers.push(self.cs_ready_pdu());
            },
            ServerPdu::SuspendTouch => {
                self.suspended = true;
            },
            ServerPdu::ResumeTouch => {
                self.suspended = false;
            },
            ServerPdu::Unknown { .. } => {},
        }
        assert(answers@.len() == old(self)@.answers(pdu).len());
        assert(dvc::pdu_models(answers@) =~= old(self)@.answers(pdu));
        answers
    }
}

/// Hands PDUs over to the channel.
fn send(channel_id: u32, pdus: Vec<RdpeiClientPdu>) -> (result: Result<
    Vec<SvcMessage>,
    EncodeError,
>)
    ensures
        dvc::sent(result, channel_id, dvc::pdu_models(pdus@)),
{
    match dvc::encode_dvc_messages(channel_id, pdus, 0) {
        Ok(messages) => Ok(messages),
        Err(_) => vstd::pervasive::unreached(),
    }
}

/// Refuses more contacts than the client announced.
fn validate_contact_count(contact_count: usize, max_touch_contacts: u16) -> (result: Result<
    (),
    EncodeError,
>)
    ensures
        result == if contact_count > max_touch_contacts {
            Err::<(), EncodeError>(EncodeError::TooManyActiveContacts)
        } else {
            Ok(())
        },
{
    if contact_count > max_touch_contacts as usize {
        return Err(EncodeError::TooManyActiveContacts);
    }
    Ok(())
}

/// Flags that share no bit can as well be added.
proof fn lemma_flags()
    ensures
        RDPINPUT_CONTACT_FLAG_DOWN | RDPINPUT_CONTACT_FLAG_INRANGE
            | RDPINPUT_CONTACT_FLAG_INCONTACT == begin_flags(),
        RDPINPUT_CONTACT_FLAG_UPDATE | RDPINPUT_CONTACT_FLAG_INRANGE
            | RDPINPUT_CONTACT_FLAG_INCONTACT == update_flags(),
        RDPINPUT_CONTACT_FLAG_UPDATE | RDPINPUT_CONTACT_FLAG_CANCELED == cancel_flags(),
{
    assert(1u32 | 8 | 16 == 25 && 2u32 | 8 | 16 == 26 && 2u32 | 32 == 34) by (bit_vector);
}

/// A frame of one contact, at once, has the error of the contact.
pub(crate) proof fn lemma_single_contact_error(contact: ContactModel)
    ensures
        PduModel::touch_error(0, frame_of(contact)) == contact.error(),
{
    reveal_with_fuel(touch::contacts_error, 2);
    assert(seq![contact].drop_last() =~= Seq::empty());
}

} // verus!
