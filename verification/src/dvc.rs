//! The hand-over of PDUs to the dynamic virtual channel of `ironrdp-dvc`.

use crate::pdu::{PduModel, RdpeiClientPdu};
use ironrdp_svc::SvcMessage;
use vstd::prelude::*;

verus! {

/// `ironrdp_svc::SvcMessage`: a message for a static virtual channel. The client passes it on and
/// never looks into it.
#[verifier::external_type_specification]
#[verifier::external_body]
pub struct ExSvcMessage(ironrdp_svc::SvcMessage);

/// The messages that `ironrdp_dvc::encode_dvc_messages` makes of the wire forms of some PDUs, for a
/// dynamic channel and with the given channel flags.
pub uninterp spec fn dvc_messages(channel_id: u32, pdus: Seq<Seq<u8>>, flags: u32) -> Seq<
    SvcMessage,
>;

/// The models of a row of PDUs.
pub open spec fn pdu_models(pdus: Seq<RdpeiClientPdu>) -> Seq<PduModel> {
    Seq::new(pdus.len(), |i: int| pdus[i]@)
}

/// The wire forms of a row of PDUs.
pub open spec fn wire_forms(pdus: Seq<PduModel>) -> Seq<Seq<u8>> {
    Seq::new(pdus.len(), |i: int| pdus[i].bytes())
}

/// How many messages some PDUs are cut into, where one message holds at most 1590 bytes of one PDU.
pub open spec fn message_count(pdus: Seq<Seq<u8>>) -> nat
    decreases pdus.len(),
{
    if pdus.len() == 0 {
        0
    } else {
        message_count(pdus.drop_last()) + (pdus.last().len() + 1589) / 1590
    }
}

/// `result` is what goes out where `pdus` are sent over a channel.
pub open spec fn sent<E>(
    result: Result<Vec<SvcMessage>, E>,
    channel_id: u32,
    pdus: Seq<PduModel>,
) -> bool {
    result matches Ok(messages) && messages@ == dvc_messages(channel_id, wire_forms(pdus), 0)
        && messages@.len() == message_count(wire_forms(pdus))
}

/// The wire forms of one PDU and of two.
pub(crate) proof fn lemma_wire_forms(a: PduModel, b: PduModel)
    ensures
        wire_forms(seq![a]) == seq![a.bytes()],
        wire_forms(seq![a, b]) == seq![a.bytes(), b.bytes()],
{
    assert(wire_forms(seq![a]) =~= seq![a.bytes()]);
    assert(wire_forms(seq![a, b]) =~= seq![a.bytes(), b.bytes()]);
}

/// `ironrdp_dvc::encode_dvc_messages` asks each PDU for its size and its bytes, cuts the bytes into
/// pieces of at most 1590, and makes a message of each piece. It fails where a PDU fails to encode
/// itself or is longer than a `u32` can say, and this crate's PDUs do neither. What the messages
/// hold is left to that crate: only that it follows from the channel, the bytes and the flags.
#[verifier::external_body]
pub(crate) fn encode_dvc_messages(
    channel_id: u32,
    pdus: Vec<RdpeiClientPdu>,
    flags: u32,
) -> (result: Result<Vec<SvcMessage>, ironrdp_core::EncodeError>)
    ensures
        result is Ok,
        result->Ok_0@ == dvc_messages(channel_id, wire_forms(pdu_models(pdus@)), flags),
        result->Ok_0@.len() == message_count(wire_forms(pdu_models(pdus@))),
{
    ironrdp_dvc::encode_dvc_messages(
        channel_id,
        pdus.into_iter().map(|pdu| Box::new(pdu) as ironrdp_dvc::DvcMessage).collect(),
        ironrdp_svc::ChannelFlags::from_bits_retain(flags),
    )
}

} // verus!
