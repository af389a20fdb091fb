//! What holds of the client and of its touch events as a whole.

use crate::client;
use crate::client::ClientState;
use crate::constants::{
    CS_READY_FLAGS_DISABLE_TIMESTAMP_INJECTION, CS_READY_FLAGS_ENABLE_MULTIPEN_INJECTION,
    CS_READY_FLAGS_SHOW_TOUCH_VISUALS, EVENTID_RESUME_TOUCH, EVENTID_SC_READY,
    EVENTID_SUSPEND_TOUCH, RDPINPUT_CONTACT_FLAG_UP, RDPINPUT_PROTOCOL_V10, RDPINPUT_PROTOCOL_V300,
    SC_READY_MULTIPEN_INJECTION_SUPPORTED,
};
use crate::dvc;
use crate::endian;
use crate::error::{DecodeError, EncodeError};
use crate::layout;
use crate::pdu;
use crate::pdu::{PduModel, ServerPdu};
use crate::reader;
use crate::touch;
use crate::touch::{ContactModel, FrameModel};
use crate::varint;
use vstd::prelude::*;

verus! {

/// The state after a payload: one that cannot be read leaves it as it is.
pub open spec fn after_payload(s: ClientState, payload: Seq<u8>) -> ClientState {
    match pdu::parse_server_pdu(payload) {
        Ok(pdu) => s.after(pdu),
        Err(_) => s,
    }
}

/// The state after a row of payloads.
pub open spec fn after_payloads(s: ClientState, payloads: Seq<Seq<u8>>) -> ClientState
    decreases payloads.len(),
{
    if payloads.len() == 0 {
        s
    } else {
        after_payload(after_payloads(s, payloads.drop_last()), payloads.last())
    }
}

/// One of the payloads is an `SC_READY`.
pub open spec fn heard_ready(payloads: Seq<Seq<u8>>) -> bool {
    exists|i: int|
        0 <= i < payloads.len() && pdu::parse_server_pdu(#[trigger] payloads[i]) matches Ok(
            ServerPdu::ScReady { .. },
        )
}

/// Of the payloads that say whether touch events are wanted, the last one says no.
pub open spec fn told_to_stop(payloads: Seq<Seq<u8>>) -> bool
    decreases payloads.len(),
{
    if payloads.len() == 0 {
        false
    } else {
        match pdu::parse_server_pdu(payloads.last()) {
            Ok(ServerPdu::SuspendTouch) => true,
            Ok(ServerPdu::ScReady { .. }) => false,
            Ok(ServerPdu::ResumeTouch) => false,
            _ => told_to_stop(payloads.drop_last()),
        }
    }
}

/// A new client is ready exactly when an `SC_READY` came and the last that the server said about
/// touch events was not to suspend them.
pub proof fn readiness_follows_the_server(s: ClientState, payloads: Seq<Seq<u8>>)
    requires
        s.server_version is None,
        !s.suspended,
    ensures
        after_payloads(s, payloads).ready() <==> heard_ready(payloads) && !told_to_stop(payloads),
        after_payloads(s, payloads).suspended == told_to_stop(payloads),
        after_payloads(s, payloads).server_version is Some <==> heard_ready(payloads),
    decreases payloads.len(),
{
    if payloads.len() > 0 {
        let before = payloads.drop_last();
        readiness_follows_the_server(s, before);
        assert(heard_ready(payloads) <==> heard_ready(before) || pdu::parse_server_pdu(
            payloads.last(),
        ) matches Ok(ServerPdu::ScReady { .. })) by {
            if heard_ready(before) {
                let i = choose|i: int|
                    0 <= i < before.len() && pdu::parse_server_pdu(#[trigger] before[i]) matches Ok(
                        ServerPdu::ScReady { .. },
                    );
                assert(payloads[i] == before[i]);
            }
            if heard_ready(payloads) {
                let i = choose|i: int|
                    0 <= i < payloads.len() && pdu::parse_server_pdu(
                        #[trigger] payloads[i],
                    ) matches Ok(ServerPdu::ScReady { .. });
                if i < before.len() {
                    assert(before[i] == payloads[i]);
                }
            }
        }
    }
}

/// No payload changes what the client was set up with.
pub proof fn settings_are_kept(s: ClientState, payloads: Seq<Seq<u8>>)
    ensures
        after_payloads(s, payloads).max_touch_contacts == s.max_touch_contacts,
        after_payloads(s, payloads).client_features_mask == s.client_features_mask,
    decreases payloads.len(),
{
    if payloads.len() > 0 {
        settings_are_kept(s, payloads.drop_last());
    }
}

/// An `SC_READY` is all that changes what is known of the server, and a server that is known stays
/// known.
pub proof fn server_is_remembered(s: ClientState, pdu: ServerPdu)
    ensures
        !(pdu is ScReady) ==> s.after(pdu).server_version == s.server_version && s.after(
            pdu,
        ).server_features == s.server_features,
        s.server_version is Some ==> s.after(pdu).server_version is Some,
{
}

/// The version and the features of the last `SC_READY` among the payloads.
pub open spec fn last_ready(payloads: Seq<Seq<u8>>) -> Option<(u32, u32)>
    decreases payloads.len(),
{
    if payloads.len() == 0 {
        None
    } else {
        match pdu::parse_server_pdu(payloads.last()) {
            Ok(ServerPdu::ScReady { protocol_version, features }) => Some(
                (protocol_version, features),
            ),
            _ => last_ready(payloads.drop_last()),
        }
    }
}

/// What is known of the server is what its last `SC_READY` said, and what was known before where
/// none came.
pub proof fn server_is_as_last_heard(s: ClientState, payloads: Seq<Seq<u8>>)
    ensures
        match last_ready(payloads) {
            Some((version, features)) => after_payloads(s, payloads).server_version == Some(version)
                && after_payloads(s, payloads).server_features == features,
            None => after_payloads(s, payloads).server_version == s.server_version
                && after_payloads(s, payloads).server_features == s.server_features,
        },
    decreases payloads.len(),
{
    if payloads.len() > 0 {
        server_is_as_last_heard(s, payloads.drop_last());
    }
}

/// Features are known only of a server of version 3.0 or later, if that was so at first, as it is
/// of a new client.
pub proof fn features_come_with_version_3(s: ClientState, payloads: Seq<Seq<u8>>)
    requires
        s.server_features != 0 ==> s.server_version is Some && s.version()
            >= RDPINPUT_PROTOCOL_V300,
    ensures
        after_payloads(s, payloads).server_features != 0 ==> after_payloads(
            s,
            payloads,
        ).server_version is Some && after_payloads(s, payloads).version()
            >= RDPINPUT_PROTOCOL_V300,
    decreases payloads.len(),
{
    if payloads.len() > 0 {
        features_come_with_version_3(s, payloads.drop_last());
    }
}

/// `SC_READY` makes the client ready, whatever came before, with the version and the features of
/// the server.
pub proof fn ready_after_sc_ready(s: ClientState, protocol_version: u32, features: u32)
    ensures
        s.after(ServerPdu::ScReady { protocol_version, features }).ready(),
        s.after(ServerPdu::ScReady { protocol_version, features }).server_version == Some(
            protocol_version,
        ),
        s.after(ServerPdu::ScReady { protocol_version, features }).server_features == features,
{
}

/// A suspended client is not ready, and resuming undoes suspending: a client that was not suspended
/// is again as it was.
pub proof fn resume_undoes_suspend(s: ClientState)
    ensures
        s.after(ServerPdu::SuspendTouch).suspended,
        !s.after(ServerPdu::SuspendTouch).ready(),
        s.after(ServerPdu::SuspendTouch).after(ServerPdu::ResumeTouch) == s.after(
            ServerPdu::ResumeTouch,
        ),
        !s.suspended ==> s.after(ServerPdu::SuspendTouch).after(ServerPdu::ResumeTouch) == s,
        s.after(ServerPdu::ResumeTouch).ready() <==> s.server_version is Some,
{
}

/// A PDU of no use to the client changes nothing and is not answered.
pub proof fn unknown_is_ignored(s: ClientState, event_id: u16, pdu_length: u32)
    ensures
        s.after(ServerPdu::Unknown { event_id, pdu_length }) == s,
        s.answers(ServerPdu::Unknown { event_id, pdu_length }) == Seq::<PduModel>::empty(),
{
}

/// Only `SC_READY` is answered, with one PDU. Suspending, resuming and what is unknown are not,
/// whatever the client knows.
pub proof fn only_sc_ready_is_answered(s: ClientState, pdu: ServerPdu)
    ensures
        s.answers(pdu).len() == (match pdu {
            ServerPdu::ScReady { .. } => 1nat,
            ServerPdu::SuspendTouch => 0,
            ServerPdu::ResumeTouch => 0,
            ServerPdu::Unknown { .. } => 0,
        }),
{
}

/// What each server PDU changes, and that it changes nothing else.
pub proof fn each_pdu_has_its_effect(s: ClientState, pdu: ServerPdu)
    ensures
        s.after(pdu).max_touch_contacts == s.max_touch_contacts,
        s.after(pdu).client_features_mask == s.client_features_mask,
        match pdu {
            ServerPdu::ScReady { protocol_version, features } => {
                &&& s.after(pdu).server_version == Some(protocol_version)
                &&& s.after(pdu).server_features == features
                &&& !s.after(pdu).suspended
            },
            ServerPdu::SuspendTouch => {
                &&& s.after(pdu).server_version == s.server_version
                &&& s.after(pdu).server_features == s.server_features
                &&& s.after(pdu).suspended
            },
            ServerPdu::ResumeTouch => {
                &&& s.after(pdu).server_version == s.server_version
                &&& s.after(pdu).server_features == s.server_features
                &&& !s.after(pdu).suspended
            },
            ServerPdu::Unknown { .. } => s.after(pdu) == s,
        },
        s.ready() <==> s.server_version is Some && !s.suspended,
        s.version() == (match s.server_version {
            Some(version) => version,
            None => 0x0003_0000,
        }),
{
}

/// A new client announces 64 contacts, is willing to disable the injection of timestamps and nothing
/// else, and knows of no server.
pub proof fn a_new_client()
    ensures
        ClientState::initial().max_touch_contacts == 64,
        ClientState::initial().client_features_mask == 2,
        ClientState::initial().server_version is None,
        ClientState::initial().server_features == 0,
        !ClientState::initial().suspended,
{
}

/// The answer to `SC_READY` speaks the server's version and announces the client's contacts. Each
/// flag is set exactly when the client is willing to set it and it may be set: the one for touch
/// visuals always, the one against the injection of timestamps after version 1.0, and the one for
/// several pens where the server can take them. There is no other flag.
pub proof fn sc_ready_is_answered_in_kind(s: ClientState, protocol_version: u32, features: u32)
    ensures
        ({
            let pdu = ServerPdu::ScReady { protocol_version, features };
            let mask = s.client_features_mask;
            let flags = s.after(pdu).allowed_flags() & mask;
            &&& s.answers(pdu) == seq![
                PduModel::cs_ready(flags, protocol_version, s.max_touch_contacts),
            ]
            &&& flags & !mask == 0
            &&& flags <= 7
            &&& flags & CS_READY_FLAGS_SHOW_TOUCH_VISUALS != 0 <==> mask
                & CS_READY_FLAGS_SHOW_TOUCH_VISUALS != 0
            &&& flags & CS_READY_FLAGS_DISABLE_TIMESTAMP_INJECTION != 0 <==> protocol_version
                > RDPINPUT_PROTOCOL_V10 && mask & CS_READY_FLAGS_DISABLE_TIMESTAMP_INJECTION != 0
            &&& flags & CS_READY_FLAGS_ENABLE_MULTIPEN_INJECTION != 0 <==> features
                & SC_READY_MULTIPEN_INJECTION_SUPPORTED != 0 && mask
                & CS_READY_FLAGS_ENABLE_MULTIPEN_INJECTION != 0
        }),
{
    let mask = s.client_features_mask;
    assert(forall|a: u32| #![trigger a & mask] a <= 7 ==> (a & mask) & !mask == 0 && a & mask <= 7)
        by (bit_vector);
    assert(forall|a: u32, b: u32| #![trigger (a & mask) & b] (a & mask) & b == (a & b) & mask)
        by (bit_vector);
    assert(1u32 & 1 == 1 && 3u32 & 1 == 1 && 5u32 & 1 == 1 && 7u32 & 1 == 1 && 1u32 & 2 == 0 && 3u32
        & 2 == 2 && 5u32 & 2 == 0 && 7u32 & 2 == 2 && 1u32 & 4 == 0 && 3u32 & 4 == 0 && 5u32 & 4 == 4
        && 7u32 & 4 == 4) by (bit_vector);
    assert(forall|b: u32| #![trigger mask & b] mask & b == b & mask && 0 & mask == 0)
        by (bit_vector);
}

/// The answer to `SC_READY`, byte by byte: a `CS_READY` of sixteen bytes whose flags are in the
/// seventh, followed by the version that the server gave and the number of contacts.
pub proof fn sc_ready_answer_bytes(s: ClientState, protocol_version: u32, features: u32)
    ensures
        ({
            let mask = s.client_features_mask;
            let b = s.answers(ServerPdu::ScReady { protocol_version, features })[0].bytes();
            &&& b.len() == 16
            &&& b[0] == 2 && b[1] == 0
            &&& b[2] == 16 && b[3] == 0 && b[4] == 0 && b[5] == 0
            &&& b[6] == (if mask & 1 != 0 {
                1int
            } else {
                0
            }) + (if mask & 2 != 0 && protocol_version > 0x0001_0000 {
                2int
            } else {
                0
            }) + (if mask & 4 != 0 && features & 1 != 0 {
                4int
            } else {
                0
            })
            &&& b[7] == 0 && b[8] == 0 && b[9] == 0
            &&& b[10] + 256 * (b[11] + 256 * (b[12] + 256 * b[13])) == protocol_version
            &&& b[14] + 256 * b[15] == s.max_touch_contacts
        }),
{
    let pdu = ServerPdu::ScReady { protocol_version, features };
    let flags = s.after(pdu).allowed_flags() & s.client_features_mask;
    sc_ready_is_answered_in_kind(s, protocol_version, features);
    layout::cs_ready_layout(flags, protocol_version, s.max_touch_contacts);
    assert(flags <= 7 ==> flags == (if flags & 1 != 0 {
        1u32
    } else {
        0
    }) + (if flags & 2 != 0 {
        2u32
    } else {
        0
    }) + (if flags & 4 != 0 {
        4u32
    } else {
        0
    })) by (bit_vector);
}

/// Wire form of an `SC_READY`, with the features field where the version has it.
pub open spec fn sc_ready_bytes(protocol_version: u32, features: u32) -> Seq<u8> {
    if protocol_version >= RDPINPUT_PROTOCOL_V300 {
        PduModel {
            event_id: EVENTID_SC_READY,
            payload: endian::u32_bytes(protocol_version) + endian::u32_bytes(features),
        }.bytes()
    } else {
        PduModel {
            event_id: EVENTID_SC_READY,
            payload: endian::u32_bytes(protocol_version),
        }.bytes()
    }
}

/// An `SC_READY` is read as what the server says, whatever follows it. A server older than version
/// 3.0 has no features.
pub proof fn sc_ready_reads_back(protocol_version: u32, features: u32, rest: Seq<u8>)
    requires
        protocol_version < RDPINPUT_PROTOCOL_V300 ==> features == 0,
    ensures
        pdu::parse_server_pdu(sc_ready_bytes(protocol_version, features) + rest) == Ok::<
            ServerPdu,
            DecodeError,
        >(ServerPdu::ScReady { protocol_version, features }),
{
    let s = sc_ready_bytes(protocol_version, features) + rest;
    let more = if protocol_version >= RDPINPUT_PROTOCOL_V300 {
        endian::u32_bytes(features)
    } else {
        Seq::empty()
    };
    let length: u32 = if protocol_version >= RDPINPUT_PROTOCOL_V300 {
        14
    } else {
        10
    };
    assert(s =~= endian::u16_bytes(EVENTID_SC_READY) + (endian::u32_bytes(length)
        + endian::u32_bytes(protocol_version) + more + rest));
    assert(s.skip(2) =~= endian::u32_bytes(length) + (endian::u32_bytes(protocol_version) + more
        + rest));
    assert(s.skip(6) =~= endian::u32_bytes(protocol_version) + (more + rest));
    assert(s.skip(10) =~= more + rest);
    endian::integers_read_back(
        EVENTID_SC_READY,
        length,
        endian::u32_bytes(protocol_version) + more + rest,
    );
    endian::integers_read_back(
        EVENTID_SC_READY,
        protocol_version,
        endian::u32_bytes(length) + endian::u32_bytes(protocol_version) + more + rest,
    );
    endian::integers_read_back(0, protocol_version, more + rest);
    endian::integers_read_back(0, features, rest);
}

/// Suspending and resuming are a bare header, and are read as such whatever follows it.
pub proof fn suspend_and_resume_read_back(rest: Seq<u8>)
    ensures
        pdu::parse_server_pdu(
            (PduModel { event_id: EVENTID_SUSPEND_TOUCH, payload: Seq::empty() }).bytes() + rest,
        ) == Ok::<ServerPdu, DecodeError>(ServerPdu::SuspendTouch),
        pdu::parse_server_pdu(
            (PduModel { event_id: EVENTID_RESUME_TOUCH, payload: Seq::empty() }).bytes() + rest,
        ) == Ok::<ServerPdu, DecodeError>(ServerPdu::ResumeTouch),
{
    let suspend = (PduModel { event_id: EVENTID_SUSPEND_TOUCH, payload: Seq::empty() }).bytes()
        + rest;
    let resume = (PduModel { event_id: EVENTID_RESUME_TOUCH, payload: Seq::empty() }).bytes()
        + rest;
    assert(suspend =~= endian::u16_bytes(EVENTID_SUSPEND_TOUCH) + (endian::u32_bytes(6) + rest));
    assert(resume =~= endian::u16_bytes(EVENTID_RESUME_TOUCH) + (endian::u32_bytes(6) + rest));
    assert(suspend.skip(2) =~= endian::u32_bytes(6) + rest);
    assert(resume.skip(2) =~= endian::u32_bytes(6) + rest);
    endian::integers_read_back(EVENTID_SUSPEND_TOUCH, 6, rest);
    endian::integers_read_back(EVENTID_SUSPEND_TOUCH, 6, endian::u32_bytes(6) + rest);
    endian::integers_read_back(EVENTID_RESUME_TOUCH, 6, endian::u32_bytes(6) + rest);
}

/// Only the first 14 bytes of a payload matter, and never are more bytes read than there are.
pub proof fn only_the_start_is_read(s: Seq<u8>, rest: Seq<u8>)
    ensures
        s.len() >= 14 ==> pdu::parse_server_pdu(s + rest) == pdu::parse_server_pdu(s),
        0 <= pdu::parsed_length(s) <= s.len(),
        pdu::parsed_length(s) <= 14,
{
    if s.len() >= 14 {
        assert((s + rest).skip(2) =~= s.skip(2) + rest);
        assert((s + rest).skip(6) =~= s.skip(6) + rest);
        assert((s + rest).skip(10) =~= s.skip(10) + rest);
    }
}

/// The rectangle of a contact lies around it: where 16 bits are enough, two to each side, and
/// elsewhere cut off at the end of 16 bits, the sides never in the wrong order.
pub proof fn rect_lies_around(x: i32, y: i32)
    ensures
        touch::rect_around(x, y).left <= touch::rect_around(x, y).right,
        touch::rect_around(x, y).top <= touch::rect_around(x, y).bottom,
        i16::MIN + 2 <= x <= i16::MAX - 2 ==> touch::rect_around(x, y).left == x - 2
            && touch::rect_around(x, y).right == x + 2,
        i16::MIN + 2 <= y <= i16::MAX - 2 ==> touch::rect_around(x, y).top == y - 2
            && touch::rect_around(x, y).bottom == y + 2,
{
}

/// A contact can be encoded exactly when its rectangle fits in 14 bits to each side and its flags
/// in 30 bits; orientation and pressure play no part.
pub proof fn contact_fits_iff(
    contact_id: u8,
    x: i32,
    y: i32,
    contact_flags: u32,
    orientation: Option<u32>,
    pressure: Option<u32>,
)
    ensures
        (ContactModel {
            orientation,
            pressure,
            ..ContactModel::at(contact_id, x, y, contact_flags)
        }).error() is None <==> -16381 <= x <= 16381 && -16381 <= y <= 16381 && contact_flags
            <= varint::FOUR_BYTE_UNSIGNED_MAX,
{
}

/// The contact is not too far out, and its flags fit in 30 bits.
pub open spec fn within_reach(contact: ContactModel) -> bool {
    &&& -16381 <= contact.x <= 16381
    &&& -16381 <= contact.y <= 16381
    &&& contact.contact_flags <= varint::FOUR_BYTE_UNSIGNED_MAX
}

/// The time fits in 30 bits, the frame is offset by no more milliseconds than 57 bits can hold in
/// microseconds, there are no more contacts than 15 bits can count, and every contact is within
/// reach.
pub open spec fn within_limits(encode_time_ms: u32, frame: FrameModel) -> bool {
    &&& encode_time_ms <= 0x3FFF_FFFF
    &&& frame.frame_offset_ms <= 144_115_188_075_855
    &&& frame.contacts.len() <= 0x7FFF
    &&& forall|i: int|
        0 <= i < frame.contacts.len() ==> within_reach(#[trigger] frame.contacts[i])
}

/// A touch event can be made exactly when its time and its frame are within limits.
pub proof fn touch_fits_iff(encode_time_ms: u32, frame: FrameModel)
    requires
        touch::all_valid(frame.contacts),
    ensures
        PduModel::touch_error(encode_time_ms, frame) is None <==> within_limits(
            encode_time_ms,
            frame,
        ),
{
    lemma_contacts_fit_iff(frame.contacts);
}

/// A frame is sent exactly when it has a contact and no more than the client announced, and is
/// within limits.
pub proof fn frames_succeed_iff(s: ClientState, encode_time_ms: u32, frame: FrameModel)
    requires
        touch::all_valid(frame.contacts),
    ensures
        s.frame_error(encode_time_ms, frame) is None <==> 1 <= frame.contacts.len()
            <= s.max_touch_contacts && within_limits(encode_time_ms, frame),
{
    touch_fits_iff(encode_time_ms, frame);
}

/// A row of valid contacts fits exactly when every one of them is within reach.
proof fn lemma_contacts_fit_iff(contacts: Seq<ContactModel>)
    requires
        touch::all_valid(contacts),
    ensures
        touch::contacts_error(contacts) is None <==> forall|i: int|
            0 <= i < contacts.len() ==> within_reach(#[trigger] contacts[i]),
    decreases contacts.len(),
{
    if contacts.len() > 0 {
        let before = contacts.drop_last();
        assert forall|i: int| 0 <= i < before.len() implies (#[trigger] before[i]).valid() by {
            assert(before[i] == contacts[i]);
        }
        lemma_contacts_fit_iff(before);
        let last = contacts.last();
        assert(last.valid() && last == contacts[contacts.len() - 1]);
        assert(last.error() is None <==> within_reach(last));
        if touch::contacts_error(contacts) is None {
            assert forall|i: int| 0 <= i < contacts.len() implies within_reach(
                #[trigger] contacts[i],
            ) by {
                if i < before.len() {
                    assert(before[i] == contacts[i]);
                }
            }
        } else if touch::contacts_error(before) is Some {
            let i = choose|i: int| 0 <= i < before.len() && !within_reach(#[trigger] before[i]);
            assert(contacts[i] == before[i]);
        }
    }
}

/// What a beginning sends reads back as one contact at once: the one that was asked for, with the
/// pressure that was given or none, down, in range and in contact.
pub proof fn begin_reads_back(contact_id: u8, x: i32, y: i32, pressure: Option<u32>)
    requires
        -16381 <= x <= 16381,
        -16381 <= y <= 16381,
        pressure matches Some(p) ==> p <= 1024,
    ensures
        ({
            let sent = PduModel::touch(
                0,
                client::frame_of(client::pressed(contact_id, x, y, client::begin_flags(), pressure)),
            );
            &&& sent.event_id == 3
            &&& reader::read_touch(sent.payload) matches Some((time, frame, rest))
            &&& time == 0 && rest.len() == 0
            &&& frame.frame_offset_ms == 0 && frame.contacts.len() == 1
            &&& frame.contacts[0].contact_id == contact_id
            &&& frame.contacts[0].x == x
            &&& frame.contacts[0].y == y
            &&& frame.contacts[0].contact_flags == 25
            &&& frame.contacts[0].rect.left == x - 2 && frame.contacts[0].rect.right == x + 2
            &&& frame.contacts[0].rect.top == y - 2 && frame.contacts[0].rect.bottom == y + 2
            &&& frame.contacts[0].orientation is None
            &&& frame.contacts[0].pressure == pressure
        }),
{
    lemma_single_reads_back(client::pressed(contact_id, x, y, client::begin_flags(), pressure));
}

/// What a move sends reads back as one contact at once: the one that was asked for, with the
/// pressure that was given or none, updated, in range and in contact.
pub proof fn update_reads_back(contact_id: u8, x: i32, y: i32, pressure: Option<u32>)
    requires
        -16381 <= x <= 16381,
        -16381 <= y <= 16381,
        pressure matches Some(p) ==> p <= 1024,
    ensures
        ({
            let sent = PduModel::touch(
                0,
                client::frame_of(client::pressed(contact_id, x, y, client::update_flags(), pressure)),
            );
            &&& sent.event_id == 3
            &&& reader::read_touch(sent.payload) matches Some((time, frame, rest))
            &&& time == 0 && rest.len() == 0
            &&& frame.frame_offset_ms == 0 && frame.contacts.len() == 1
            &&& frame.contacts[0].contact_id == contact_id
            &&& frame.contacts[0].x == x
            &&& frame.contacts[0].y == y
            &&& frame.contacts[0].contact_flags == 26
            &&& frame.contacts[0].rect.left == x - 2 && frame.contacts[0].rect.right == x + 2
            &&& frame.contacts[0].rect.top == y - 2 && frame.contacts[0].rect.bottom == y + 2
            &&& frame.contacts[0].orientation is None
            &&& frame.contacts[0].pressure == pressure
        }),
{
    lemma_single_reads_back(client::pressed(contact_id, x, y, client::update_flags(), pressure));
}

/// What a cancellation sends reads back as one contact at once: the one that was asked for, with
/// the pressure that was given or none, updated and canceled.
pub proof fn cancel_reads_back(contact_id: u8, x: i32, y: i32, pressure: Option<u32>)
    requires
        -16381 <= x <= 16381,
        -16381 <= y <= 16381,
        pressure matches Some(p) ==> p <= 1024,
    ensures
        ({
            let sent = PduModel::touch(
                0,
                client::frame_of(client::pressed(contact_id, x, y, client::cancel_flags(), pressure)),
            );
            &&& sent.event_id == 3
            &&& reader::read_touch(sent.payload) matches Some((time, frame, rest))
            &&& time == 0 && rest.len() == 0
            &&& frame.frame_offset_ms == 0 && frame.contacts.len() == 1
            &&& frame.contacts[0].contact_id == contact_id
            &&& frame.contacts[0].x == x
            &&& frame.contacts[0].y == y
            &&& frame.contacts[0].contact_flags == 34
            &&& frame.contacts[0].rect.left == x - 2 && frame.contacts[0].rect.right == x + 2
            &&& frame.contacts[0].rect.top == y - 2 && frame.contacts[0].rect.bottom == y + 2
            &&& frame.contacts[0].orientation is None
            &&& frame.contacts[0].pressure == pressure
        }),
{
    lemma_single_reads_back(client::pressed(contact_id, x, y, client::cancel_flags(), pressure));
}

/// What the second step of an ending sends reads back as one contact at once: the one that was asked
/// for, with the pressure that was given or none, up and nothing else.
pub proof fn up_reads_back(contact_id: u8, x: i32, y: i32, pressure: Option<u32>)
    requires
        -16381 <= x <= 16381,
        -16381 <= y <= 16381,
        pressure matches Some(p) ==> p <= 1024,
    ensures
        ({
            let sent = PduModel::touch(
                0,
                client::frame_of(client::pressed(contact_id, x, y, RDPINPUT_CONTACT_FLAG_UP, pressure)),
            );
            &&& sent.event_id == 3
            &&& reader::read_touch(sent.payload) matches Some((time, frame, rest))
            &&& time == 0 && rest.len() == 0
            &&& frame.frame_offset_ms == 0 && frame.contacts.len() == 1
            &&& frame.contacts[0].contact_id == contact_id
            &&& frame.contacts[0].x == x
            &&& frame.contacts[0].y == y
            &&& frame.contacts[0].contact_flags == 4
            &&& frame.contacts[0].rect.left == x - 2 && frame.contacts[0].rect.right == x + 2
            &&& frame.contacts[0].rect.top == y - 2 && frame.contacts[0].rect.bottom == y + 2
            &&& frame.contacts[0].orientation is None
            &&& frame.contacts[0].pressure == pressure
        }),
{
    lemma_single_reads_back(client::pressed(contact_id, x, y, RDPINPUT_CONTACT_FLAG_UP, pressure));
}

/// A frame of one valid contact, at once, reads back.
proof fn lemma_single_reads_back(contact: ContactModel)
    requires
        contact.valid(),
        within_reach(contact),
    ensures
        reader::read_touch(PduModel::touch(0, client::frame_of(contact)).payload) == Some(
            (0u32, client::frame_of(contact), Seq::<u8>::empty()),
        ),
{
    let frame = client::frame_of(contact);
    assert(frame.contacts[0] == contact);
    touch_fits_iff(0, frame);
    reader::touch_reads_back(0, frame);
}

/// A frame is refused for having more contacts than announced, then for having none, then for what
/// stops the touch event.
pub proof fn frame_error_order(s: ClientState, encode_time_ms: u32, frame: FrameModel)
    ensures
        s.frame_error(encode_time_ms, frame) == if frame.contacts.len() > s.max_touch_contacts {
            Some(EncodeError::TooManyActiveContacts)
        } else if frame.contacts.len() == 0 {
            Some(EncodeError::NoContacts)
        } else {
            PduModel::touch_error(encode_time_ms, frame)
        },
{
}

/// A gesture is refused for its pressure first, then for want of announced contacts, which an ending
/// does not ask for, and then for its position: where it is beyond 29 bits, and where its rectangle
/// is beyond 14.
pub proof fn gesture_error_order(
    s: ClientState,
    contact_id: u8,
    x: i32,
    y: i32,
    pressure: Option<u32>,
)
    ensures
        ({
            let begin = client::pressed(contact_id, x, y, client::begin_flags(), pressure);
            let update = client::pressed(contact_id, x, y, client::update_flags(), pressure);
            let hard = pressure matches Some(p) && p > 1024;
            let position = if !(-0x1FFF_FFFF <= x <= 0x1FFF_FFFF && -0x1FFF_FFFF <= y
                <= 0x1FFF_FFFF) {
                Some(EncodeError::FourByteSignedOutOfRange)
            } else if !(-16381 <= x <= 16381 && -16381 <= y <= 16381) {
                Some(EncodeError::TwoByteSignedOutOfRange)
            } else {
                None
            };
            &&& s.gesture_error(begin) == if hard {
                Some(EncodeError::PressureOutOfRange)
            } else if s.max_touch_contacts == 0 {
                Some(EncodeError::TooManyActiveContacts)
            } else {
                position
            }
            &&& client::ending_error(update) == if hard {
                Some(EncodeError::PressureOutOfRange)
            } else {
                position
            }
        }),
{
    client::lemma_single_contact_error(
        client::pressed(contact_id, x, y, client::begin_flags(), pressure),
    );
    client::lemma_single_contact_error(
        client::pressed(contact_id, x, y, client::update_flags(), pressure),
    );
}

/// What an error says: every number that does not fit is out of range, and all errors of reading come
/// from one place.
pub proof fn error_texts(e: EncodeError, d: DecodeError)
    ensures
        ({
            &&& e == EncodeError::TwoByteUnsignedOutOfRange || e
                == EncodeError::TwoByteSignedOutOfRange || e
                == EncodeError::FourByteUnsignedOutOfRange || e
                == EncodeError::FourByteSignedOutOfRange || e
                == EncodeError::EightByteUnsignedOutOfRange ==> e.explanation()
                == "value is out of range"@
            &&& d.origin()
                == "<ironrdp_rdpei::ServerPdu as ironrdp_core::decode::Decode<'_>>::decode"@
        }),
{
}

/// A contact that begins, moves or is canceled is sent exactly when the client announced at least
/// one contact, the pressure is on its scale and the position is not too far out; all of them are
/// sent or refused alike.
pub proof fn gestures_succeed_iff(
    s: ClientState,
    contact_id: u8,
    x: i32,
    y: i32,
    pressure: Option<u32>,
)
    ensures
        ({
            let begin = client::pressed(contact_id, x, y, client::begin_flags(), pressure);
            let update = client::pressed(contact_id, x, y, client::update_flags(), pressure);
            let cancel = client::pressed(contact_id, x, y, client::cancel_flags(), pressure);
            &&& s.gesture_error(begin) is None <==> s.max_touch_contacts >= 1 && (pressure matches Some(
                p,
            ) ==> p <= 1024) && -16381 <= x <= 16381 && -16381 <= y <= 16381
            &&& s.gesture_error(update) == s.gesture_error(begin)
            &&& s.gesture_error(cancel) == s.gesture_error(begin)
        }),
{
    client::lemma_single_contact_error(
        client::pressed(contact_id, x, y, client::begin_flags(), pressure),
    );
    client::lemma_single_contact_error(
        client::pressed(contact_id, x, y, client::update_flags(), pressure),
    );
    client::lemma_single_contact_error(
        client::pressed(contact_id, x, y, client::cancel_flags(), pressure),
    );
}

/// A contact is ended exactly when the pressure is on its scale and the position is not too far
/// out; the last update and the lifting are sent or refused alike. Ending asks for no room among
/// the announced contacts, so that what could begin can end.
pub proof fn ending_succeeds_iff(
    s: ClientState,
    contact_id: u8,
    x: i32,
    y: i32,
    pressure: Option<u32>,
)
    ensures
        ({
            let begin = client::pressed(contact_id, x, y, client::begin_flags(), pressure);
            let update = client::pressed(contact_id, x, y, client::update_flags(), pressure);
            let up = client::pressed(contact_id, x, y, RDPINPUT_CONTACT_FLAG_UP, pressure);
            &&& client::ending_error(update) is None <==> (pressure matches Some(p) ==> p <= 1024)
                && -16381 <= x <= 16381 && -16381 <= y <= 16381
            &&& client::ending_error(up) == client::ending_error(update)
            &&& s.gesture_error(begin) is None ==> client::ending_error(update) is None
        }),
{
    client::lemma_single_contact_error(
        client::pressed(contact_id, x, y, client::begin_flags(), pressure),
    );
    client::lemma_single_contact_error(
        client::pressed(contact_id, x, y, client::update_flags(), pressure),
    );
    client::lemma_single_contact_error(
        client::pressed(contact_id, x, y, RDPINPUT_CONTACT_FLAG_UP, pressure),
    );
}

/// A frame of one contact goes out as one message, and two such frames as two.
pub proof fn one_contact_is_one_message(a: ContactModel, b: ContactModel)
    ensures
        dvc::message_count(dvc::wire_forms(seq![PduModel::touch(0, client::frame_of(a))])) == 1,
        dvc::message_count(
            dvc::wire_forms(
                seq![
                    PduModel::touch(0, client::frame_of(a)),
                    PduModel::touch(0, client::frame_of(b)),
                ],
            ),
        ) == 2,
{
    let pa = PduModel::touch(0, client::frame_of(a));
    let pb = PduModel::touch(0, client::frame_of(b));
    touch::lemma_contact_length(a);
    touch::lemma_contact_length(b);
    varint::lemma_lengths(1, 0, 0, 0, 0);
    assert(touch::contacts_bytes(seq![a]) =~= a.bytes()) by {
        reveal_with_fuel(touch::contacts_bytes, 2);
        assert(seq![a].drop_last() =~= Seq::empty());
    }
    assert(touch::contacts_bytes(seq![b]) =~= b.bytes()) by {
        reveal_with_fuel(touch::contacts_bytes, 2);
        assert(seq![b].drop_last() =~= Seq::empty());
    }
    assert(6 <= pa.bytes().len() <= 1590);
    assert(6 <= pb.bytes().len() <= 1590);
    reveal_with_fuel(dvc::message_count, 3);
    let one = dvc::wire_forms(seq![pa]);
    let two = dvc::wire_forms(seq![pa, pb]);
    assert(one.drop_last() =~= Seq::empty());
    assert(two.drop_last() =~= one);
}

/// Where a frame is refused for the number of its contacts, it has none or more than the client
/// announced.
pub proof fn contact_count_is_limited(s: ClientState, encode_time_ms: u32, frame: FrameModel)
    ensures
        s.frame_error(encode_time_ms, frame) == Some(EncodeError::TooManyActiveContacts)
            <==> frame.contacts.len() > s.max_touch_contacts,
        s.frame_error(encode_time_ms, frame) == Some(EncodeError::NoContacts)
            <==> frame.contacts.len() == 0,
        s.frame_error(encode_time_ms, frame) != Some(EncodeError::TooManyContacts),
{
    lemma_contact_errors(frame.contacts);
}

/// The errors that a contact can have.
proof fn lemma_contact_errors(contacts: Seq<ContactModel>)
    ensures
        touch::contacts_error(contacts) matches Some(e) ==> e
            == EncodeError::FourByteSignedOutOfRange || e == EncodeError::FourByteUnsignedOutOfRange
            || e == EncodeError::TwoByteSignedOutOfRange,
    decreases contacts.len(),
{
    if contacts.len() > 0 {
        lemma_contact_errors(contacts.drop_last());
    }
}

} // verus!
