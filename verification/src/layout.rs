//! What stands on the wire, byte by byte and in plain numbers.

use crate::dvc;
use crate::endian;
use crate::error::{DecodeError, EncodeError};
use crate::pdu;
use crate::pdu::{PduModel, ServerPdu};
use crate::touch;
use crate::touch::{ContactModel, FrameModel, TouchContact};
use crate::varint;
use ironrdp_svc::SvcMessage;
use vstd::prelude::*;

verus! {

/// A `TWO_BYTE_UNSIGNED_INTEGER` below 127 is one byte. Others are two: the top bit is set, and the
/// bits below it are the value.
pub proof fn two_byte_unsigned_layout(v: u16)
    requires
        v <= 0x7FFF,
    ensures
        ({
            let s = varint::two_byte_unsigned(v as nat);
            &&& v < 127 ==> s.len() == 1 && s[0] == v
            &&& v >= 127 ==> s.len() == 2 && s[0] >= 128 && 256 * (s[0] - 128) + s[1] == v
        }),
{
}

/// A `TWO_BYTE_SIGNED_INTEGER` of a magnitude below 63 is one byte. Others are two, with the top bit
/// set. The next bit is set for negative values, and the bits below it are the magnitude.
pub proof fn two_byte_signed_layout(v: i16)
    requires
        -0x3FFF <= v <= 0x3FFF,
    ensures
        ({
            let s = varint::two_byte_signed(v as int);
            &&& 0 <= v < 63 ==> s.len() == 1 && s[0] == v
            &&& -63 < v < 0 ==> s.len() == 1 && s[0] == 64 - v
            &&& v >= 63 ==> s.len() == 2 && 128 <= s[0] < 192 && 256 * (s[0] - 128) + s[1] == v
            &&& v <= -63 ==> s.len() == 2 && s[0] >= 192 && 256 * (s[0] - 192) + s[1] == -v
        }),
{
}

/// A `FOUR_BYTE_UNSIGNED_INTEGER` is as short as six bits in the first byte allow. The top two bits
/// of the first byte count the bytes that follow, and the other bits are the value.
pub proof fn four_byte_unsigned_layout(v: u32)
    requires
        v <= 0x3FFF_FFFF,
    ensures
        ({
            let s = varint::four_byte_unsigned(v as nat);
            &&& v <= 0x3F ==> s.len() == 1 && s[0] == v
            &&& 0x3F < v <= 0x3FFF ==> s.len() == 2 && 256 * (s[0] - 64) + s[1] == v && 64 <= s[0]
                < 128
            &&& 0x3FFF < v <= 0x3F_FFFF ==> s.len() == 3 && 256 * (256 * (s[0] - 128) + s[1]) + s[2]
                == v && 128 <= s[0] < 192
            &&& 0x3F_FFFF < v ==> s.len() == 4 && 256 * (256 * (256 * (s[0] - 192) + s[1]) + s[2])
                + s[3] == v && 192 <= s[0]
        }),
{
    reveal_with_fuel(varint::tail_len, 5);
    reveal_with_fuel(varint::without_low_bytes, 5);
    reveal_with_fuel(varint::low_bytes, 5);
}

/// A `FOUR_BYTE_SIGNED_INTEGER` is as short as five bits in the first byte allow. The top two bits of
/// the first byte count the bytes that follow, the next one is set for negative values, and the
/// other bits are the magnitude.
pub proof fn four_byte_signed_layout(v: i32)
    requires
        -0x1FFF_FFFF <= v <= 0x1FFF_FFFF,
    ensures
        ({
            let s = varint::four_byte_signed(v as int);
            let sign: int = if v < 0 {
                32
            } else {
                0
            };
            let m: int = if v < 0 {
                -v
            } else {
                v as int
            };
            let top = s[0] - sign;
            &&& m <= 0x1F ==> s.len() == 1 && top == m
            &&& 0x1F < m <= 0x1FFF ==> s.len() == 2 && 256 * (top - 64) + s[1] == m && 64 <= top < 96
            &&& 0x1FFF < m <= 0x1F_FFFF ==> s.len() == 3 && 256 * (256 * (top - 128) + s[1]) + s[2]
                == m && 128 <= top < 160
            &&& 0x1F_FFFF < m ==> s.len() == 4 && 256 * (256 * (256 * (top - 192) + s[1]) + s[2])
                + s[3] == m && 192 <= top < 224
        }),
{
    reveal_with_fuel(varint::tail_len, 5);
    reveal_with_fuel(varint::without_low_bytes, 5);
    reveal_with_fuel(varint::low_bytes, 5);
}

/// An `EIGHT_BYTE_UNSIGNED_INTEGER` is as short as five bits in the first byte allow. The top three
/// bits of the first byte count the bytes that follow, and the other bits are the value.
pub proof fn eight_byte_unsigned_layout(v: u64)
    requires
        v <= 0x01FF_FFFF_FFFF_FFFF,
    ensures
        ({
            let s = varint::eight_byte_unsigned(v as nat);
            let v0 = s[0] % 32;
            let v1 = 256 * v0 + s[1];
            let v2 = 256 * v1 + s[2];
            let v3 = 256 * v2 + s[3];
            let v4 = 256 * v3 + s[4];
            let v5 = 256 * v4 + s[5];
            let v6 = 256 * v5 + s[6];
            let v7 = 256 * v6 + s[7];
            &&& 1 <= s.len() <= 8
            &&& s[0] / 32 == s.len() - 1
            &&& s.len() == 1 <==> v <= 0x1F
            &&& s.len() <= 2 <==> v <= 0x1FFF
            &&& s.len() <= 3 <==> v <= 0x1F_FFFF
            &&& s.len() <= 4 <==> v <= 0x1FFF_FFFF
            &&& s.len() <= 5 <==> v <= 0x1F_FFFF_FFFF
            &&& s.len() <= 6 <==> v <= 0x1FFF_FFFF_FFFF
            &&& s.len() <= 7 <==> v <= 0x1F_FFFF_FFFF_FFFF
            &&& s.len() == 1 ==> v0 == v
            &&& s.len() == 2 ==> v1 == v
            &&& s.len() == 3 ==> v2 == v
            &&& s.len() == 4 ==> v3 == v
            &&& s.len() == 5 ==> v4 == v
            &&& s.len() == 6 ==> v5 == v
            &&& s.len() == 7 ==> v6 == v
            &&& s.len() == 8 ==> v7 == v
        }),
{
    reveal_with_fuel(varint::tail_len, 9);
    reveal_with_fuel(varint::without_low_bytes, 9);
    reveal_with_fuel(varint::low_bytes, 9);
}

/// The largest values of the variable-length integers, and what a magnitude is.
pub proof fn limits(v: int)
    ensures
        varint::TWO_BYTE_UNSIGNED_MAX == 0x7FFF,
        varint::TWO_BYTE_SIGNED_MAX == 0x3FFF,
        varint::FOUR_BYTE_UNSIGNED_MAX == 0x3FFF_FFFF,
        varint::FOUR_BYTE_SIGNED_MAX == 0x1FFF_FFFF,
        varint::EIGHT_BYTE_UNSIGNED_MAX == 0x01FF_FFFF_FFFF_FFFF,
        v >= 0 ==> varint::magnitude(v) == v,
        v <= 0 ==> varint::magnitude(v) == -v,
{
}

/// A contact is its number, a byte that tells which parts are there, its position, its flags, the
/// four sides of its rectangle, and then its orientation and its pressure where there are any.
pub proof fn contact_layout(c: ContactModel)
    ensures
        c.bytes() == seq![
            c.contact_id,
            (1 + (if c.orientation is Some {
                2int
            } else {
                0
            }) + (if c.pressure is Some {
                4int
            } else {
                0
            })) as u8,
        ] + varint::four_byte_signed(c.x as int) + varint::four_byte_signed(c.y as int)
            + varint::four_byte_unsigned(c.contact_flags as nat) + varint::two_byte_signed(
            c.rect.left as int,
        ) + varint::two_byte_signed(c.rect.top as int) + varint::two_byte_signed(
            c.rect.right as int,
        ) + varint::two_byte_signed(c.rect.bottom as int) + (match c.orientation {
            Some(degrees) => varint::four_byte_unsigned(degrees as nat),
            None => seq![],
        }) + (match c.pressure {
            Some(pressure) => varint::four_byte_unsigned(pressure as nat),
            None => seq![],
        }),
{
    let head = varint::two_byte_unsigned(c.fields_present());
    assert(c.bytes() =~= seq![c.contact_id, head[0]] + varint::four_byte_signed(c.x as int)
        + varint::four_byte_signed(c.y as int) + varint::four_byte_unsigned(c.contact_flags as nat)
        + varint::two_byte_signed(c.rect.left as int) + varint::two_byte_signed(c.rect.top as int)
        + varint::two_byte_signed(c.rect.right as int) + varint::two_byte_signed(
        c.rect.bottom as int,
    ) + touch::optional_bytes(c.orientation) + touch::optional_bytes(c.pressure));
}

/// Contacts stand one behind the other: a row of one is that contact, and two rows put together are
/// the bytes of both put together.
pub proof fn contacts_layout(c: ContactModel, a: Seq<ContactModel>, b: Seq<ContactModel>)
    ensures
        touch::contacts_bytes(Seq::empty()).len() == 0,
        touch::contacts_bytes(seq![c]) == c.bytes(),
        touch::contacts_bytes(a + b) == touch::contacts_bytes(a) + touch::contacts_bytes(b),
    decreases b.len(),
{
    reveal_with_fuel(touch::contacts_bytes, 2);
    assert(seq![c].drop_last() =~= Seq::empty());
    assert(touch::contacts_bytes(seq![c]) =~= c.bytes());
    if b.len() == 0 {
        assert(a + b =~= a);
        assert(touch::contacts_bytes(a + b) =~= touch::contacts_bytes(a) + touch::contacts_bytes(b));
    } else {
        contacts_layout(c, a, b.drop_last());
        assert((a + b).drop_last() =~= a + b.drop_last());
        assert((a + b).last() == b.last());
        assert(touch::contacts_bytes(a + b) =~= touch::contacts_bytes(a) + touch::contacts_bytes(b));
    }
}

/// A touch event carries the encode time, the number of frames, which is one, and of that frame the
/// number of contacts, the offset in microseconds and the contacts.
pub proof fn touch_layout(encode_time_ms: u32, frame: FrameModel)
    ensures
        PduModel::touch(encode_time_ms, frame).event_id == 3,
        PduModel::touch(encode_time_ms, frame).payload == varint::four_byte_unsigned(
            encode_time_ms as nat,
        ) + seq![1u8] + varint::two_byte_unsigned(frame.contacts.len())
            + varint::eight_byte_unsigned(frame.frame_offset_us()) + touch::contacts_bytes(
            frame.contacts,
        ),
        frame.frame_offset_ms <= 18_446_744_073_709_551 ==> frame.frame_offset_us() == 1000
            * frame.frame_offset_ms,
        frame.frame_offset_ms > 18_446_744_073_709_551 ==> frame.frame_offset_us() == u64::MAX,
{
    assert(PduModel::touch(encode_time_ms, frame).payload =~= varint::four_byte_unsigned(
        encode_time_ms as nat,
    ) + seq![1u8] + varint::two_byte_unsigned(frame.contacts.len()) + varint::eight_byte_unsigned(
        frame.frame_offset_us(),
    ) + touch::contacts_bytes(frame.contacts));
}

/// A PDU is six bytes of header, which give the event and the length of the whole, least significant
/// byte first, and the payload.
pub proof fn pdu_layout(pdu: PduModel)
    requires
        pdu.payload.len() <= 0xFFFF_FFF9,
    ensures
        ({
            let s = pdu.bytes();
            &&& s.len() == 6 + pdu.payload.len()
            &&& s.len() == pdu.length()
            &&& s[0] + 256 * s[1] == pdu.event_id
            &&& s[2] + 256 * (s[3] + 256 * (s[4] + 256 * s[5])) == s.len()
            &&& s.skip(6) == pdu.payload
        }),
{
    assert(pdu.bytes().skip(6) =~= pdu.payload);
}

/// A `CS_READY` is sixteen bytes: the header, the flags, the version and the number of contacts.
pub proof fn cs_ready_layout(flags: u32, protocol_version: u32, max_touch_contacts: u16)
    ensures
        ({
            let s = PduModel::cs_ready(flags, protocol_version, max_touch_contacts).bytes();
            &&& s.len() == 16
            &&& s[0] == 2 && s[1] == 0
            &&& s[2] == 16 && s[3] == 0 && s[4] == 0 && s[5] == 0
            &&& s[6] + 256 * (s[7] + 256 * (s[8] + 256 * s[9])) == flags
            &&& s[10] + 256 * (s[11] + 256 * (s[12] + 256 * s[13])) == protocol_version
            &&& s[14] + 256 * s[15] == max_touch_contacts
        }),
{
    let pdu = PduModel::cs_ready(flags, protocol_version, max_touch_contacts);
    pdu_layout(pdu);
    let s = pdu.bytes();
    assert(forall|i: int| 6 <= i < 16 ==> #[trigger] s[i] == pdu.payload[i - 6]);
    assert(pdu.payload[4] == endian::u32_bytes(protocol_version)[0]);
    assert(pdu.payload[8] == endian::u16_bytes(max_touch_contacts)[0]);
}

/// What a payload of the server is, by its bytes: the first two are the event, the next four the
/// length. Too few bytes or a length below six are refused, whatever the event. `SC_READY` goes on
/// with the version, and from version 3.0 on with the features if they are there.
pub proof fn server_pdu_layout(s: Seq<u8>)
    ensures
        ({
            let parsed = pdu::parse_server_pdu(s);
            let event = s[0] + 256 * s[1];
            let length = s[2] + 256 * (s[3] + 256 * (s[4] + 256 * s[5]));
            let version = s[6] + 256 * (s[7] + 256 * (s[8] + 256 * s[9]));
            let features = s[10] + 256 * (s[11] + 256 * (s[12] + 256 * s[13]));
            &&& parsed == Err::<ServerPdu, DecodeError>(DecodeError::HeaderTooShort) <==> s.len() < 6
            &&& parsed == Err::<ServerPdu, DecodeError>(DecodeError::PduLengthTooShort) <==> s.len()
                >= 6 && length < 6
            &&& parsed == Err::<ServerPdu, DecodeError>(DecodeError::ScReadyTooShort) <==> 6
                <= s.len() < 10 && length >= 6 && event == 1
            &&& s.len() >= 10 && length >= 6 && event == 1 ==> (parsed matches Ok(
                ServerPdu::ScReady { protocol_version, features: f },
            ) && protocol_version == version && f == (if version >= 0x0003_0000 && s.len() >= 14 {
                features
            } else {
                0
            }))
            &&& s.len() >= 6 && length >= 6 && event == 4 ==> parsed == Ok::<ServerPdu, DecodeError>(
                ServerPdu::SuspendTouch,
            )
            &&& s.len() >= 6 && length >= 6 && event == 5 ==> parsed == Ok::<ServerPdu, DecodeError>(
                ServerPdu::ResumeTouch,
            )
            &&& s.len() >= 6 && length >= 6 && event != 1 && event != 4 && event != 5 ==> (
            parsed matches Ok(ServerPdu::Unknown { event_id, pdu_length }) && event_id == event
                && pdu_length == length)
        }),
{
}

/// How far a payload is read: not at all without a header, the header alone, the header and the
/// version, or also the features.
pub proof fn server_pdu_extent(s: Seq<u8>)
    ensures
        s.len() < 6 ==> pdu::parsed_length(s) == 0,
        s.len() >= 6 && !(pdu::parse_server_pdu(s) matches Ok(ServerPdu::ScReady { .. }))
            ==> pdu::parsed_length(s) == 6,
        pdu::parse_server_pdu(s) matches Ok(ServerPdu::ScReady { protocol_version, .. })
            ==> pdu::parsed_length(s) == (if protocol_version >= 0x0003_0000 && s.len() >= 14 {
            14int
        } else {
            10
        }),
{
}

/// A contact is at its position, with no orientation and no pressure. Each side of its rectangle is
/// two away, or as far as 16 bits go.
pub proof fn contact_is_where_it_was_put(contact_id: u8, x: i32, y: i32, contact_flags: u32)
    ensures
        ({
            let c = ContactModel::at(contact_id, x, y, contact_flags);
            &&& c.contact_id == contact_id && c.x == x && c.y == y
            &&& c.contact_flags == contact_flags
            &&& c.orientation is None && c.pressure is None
            &&& c.rect == touch::rect_around(x, y)
            &&& -32766 <= x <= 32769 ==> c.rect.left == x - 2
            &&& -32770 <= x <= 32765 ==> c.rect.right == x + 2
            &&& -32766 <= y <= 32769 ==> c.rect.top == y - 2
            &&& -32770 <= y <= 32765 ==> c.rect.bottom == y + 2
            &&& x > 32769 ==> c.rect.left == 32767
            &&& x > 32765 ==> c.rect.right == 32767
            &&& y > 32769 ==> c.rect.top == 32767
            &&& y > 32765 ==> c.rect.bottom == 32767
            &&& x < -32766 ==> c.rect.left == -32768
            &&& x < -32770 ==> c.rect.right == -32768
            &&& y < -32766 ==> c.rect.top == -32768
            &&& y < -32770 ==> c.rect.bottom == -32768
        }),
{
}

/// The nearest of the 16-bit numbers: the number itself, or the end that it is beyond.
pub proof fn nearest_of_16_bits(v: int)
    ensures
        -32768 <= v <= 32767 ==> touch::nearest_i16(v) == v,
        v > 32767 ==> touch::nearest_i16(v) == 32767,
        v < -32768 ==> touch::nearest_i16(v) == -32768,
{
}

/// The contact that is refused is refused for its position first, then for its flags, then for its
/// rectangle.
pub proof fn contact_error_order(c: ContactModel)
    ensures
        ({
            let far = !(-0x1FFF_FFFF <= c.x <= 0x1FFF_FFFF && -0x1FFF_FFFF <= c.y <= 0x1FFF_FFFF);
            let wide = c.contact_flags > 0x3FFF_FFFF;
            let fits = -0x3FFF <= c.rect.left <= 0x3FFF && -0x3FFF <= c.rect.top <= 0x3FFF && -0x3FFF
                <= c.rect.right <= 0x3FFF && -0x3FFF <= c.rect.bottom <= 0x3FFF;
            &&& far ==> c.error() == Some(EncodeError::FourByteSignedOutOfRange)
            &&& !far && wide ==> c.error() == Some(EncodeError::FourByteUnsignedOutOfRange)
            &&& !far && !wide && !fits ==> c.error() == Some(EncodeError::TwoByteSignedOutOfRange)
            &&& !far && !wide && fits ==> c.error() is None
        }),
{
}

/// A row of contacts is refused for the first contact that is, and leaves the contacts before it and
/// a start of that one.
pub proof fn contacts_error_order(contacts: Seq<ContactModel>, n: int)
    requires
        0 <= n <= contacts.len(),
        forall|i: int| 0 <= i < n ==> (#[trigger] contacts[i]).error() is None,
    ensures
        n == contacts.len() ==> touch::contacts_error(contacts) is None,
        n < contacts.len() && contacts[n].error() is Some ==> touch::contacts_error(contacts)
            == contacts[n].error() && touch::contacts_bytes_until_error(contacts)
            == touch::contacts_bytes(contacts.take(n)) + contacts[n].bytes_until_error(),
    decreases contacts.len(),
{
    assert(n == contacts.len() - 1 ==> contacts.drop_last() =~= contacts.take(n));
    assert(n < contacts.len() - 1 ==> contacts.drop_last().take(n) =~= contacts.take(n));
    if contacts.len() > 0 {
        let before = contacts.drop_last();
        assert(forall|i: int| 0 <= i < before.len() ==> before[i] == contacts[i]);
        contacts_error_order(
            before,
            if n == contacts.len() {
                n - 1
            } else {
                n
            },
        );
    }
}

/// A touch event is refused for its time first, then for the number of its contacts, then for its
/// offset, then for its contacts, and leaves what goes before. A frame is refused for having no
/// contact or more than 65535.
pub proof fn touch_error_order(encode_time_ms: u32, frame: FrameModel, contact_count: nat)
    ensures
        ({
            let error = PduModel::touch_error(encode_time_ms, frame);
            let late = encode_time_ms > 0x3FFF_FFFF;
            let many = frame.contacts.len() > 0x7FFF;
            let far = frame.frame_offset_ms > 144_115_188_075_855;
            &&& late ==> error == Some(EncodeError::FourByteUnsignedOutOfRange)
            &&& !late && many ==> error == Some(EncodeError::TwoByteUnsignedOutOfRange)
            &&& !late && !many && far ==> error == Some(EncodeError::EightByteUnsignedOutOfRange)
            &&& !late && !many && !far ==> error == touch::contacts_error(frame.contacts)
            &&& many ==> frame.bytes_until_error().len() == 0
            &&& !many && far ==> frame.bytes_until_error() == varint::two_byte_unsigned(
                frame.contacts.len(),
            )
            &&& !many && !far ==> frame.bytes_until_error() == varint::two_byte_unsigned(
                frame.contacts.len(),
            ) + varint::eight_byte_unsigned(frame.frame_offset_us())
                + touch::contacts_bytes_until_error(frame.contacts)
        }),
        FrameModel::creation_error(contact_count) == if contact_count == 0 {
            Some(EncodeError::NoContacts)
        } else if contact_count <= 65535 {
            None
        } else {
            Some(EncodeError::TooManyContacts)
        },
{
}

/// What is left in the buffer after a refusal is the start of what would have gone there, and
/// without a refusal it is all of it.
pub proof fn a_refusal_leaves_a_start(c: ContactModel)
    ensures
        c.bytes_until_error().is_prefix_of(c.bytes()),
        c.error() is None ==> c.bytes_until_error() == c.bytes(),
        ({
            let n = c.bytes_until_error().len();
            let x = varint::four_byte_signed(c.x as int).len();
            let y = varint::four_byte_signed(c.y as int).len();
            let flags = varint::four_byte_unsigned(c.contact_flags as nat).len();
            let x_fits = -0x1FFF_FFFF <= c.x <= 0x1FFF_FFFF;
            let y_fits = -0x1FFF_FFFF <= c.y <= 0x1FFF_FFFF;
            let flags_fit = c.contact_flags <= 0x3FFF_FFFF;
            &&& !x_fits ==> n == 2
            &&& x_fits && !y_fits ==> n == 2 + x
            &&& x_fits && y_fits && !flags_fit ==> n == 2 + x + y
            &&& x_fits && y_fits && flags_fit && !c.rect.fits() ==> n == 2 + x + y + flags
                + c.rect.bytes_until_error().len()
        }),
{
    let head = seq![c.contact_id] + varint::two_byte_unsigned(c.fields_present());
    let x = varint::four_byte_signed(c.x as int);
    let y = varint::four_byte_signed(c.y as int);
    let flags = varint::four_byte_unsigned(c.contact_flags as nat);
    let rest = touch::optional_bytes(c.orientation);
    lemma_rect_start(c.rect);
    lemma_starts(head, x, y, flags, c.rect.bytes_until_error(), c.rect.bytes(), rest);
    lemma_longer(
        head + x + y + flags + c.rect.bytes() + rest,
        touch::optional_bytes(c.pressure),
    );
}

/// What is left of a rectangle after a refusal is a start of it: the sides before the first one that
/// does not fit.
proof fn lemma_rect_start(r: touch::ContactRect)
    ensures
        r.bytes_until_error().is_prefix_of(r.bytes()),
        r.fits() ==> r.bytes_until_error() == r.bytes(),
        ({
            let n = r.bytes_until_error().len();
            let left = varint::two_byte_signed(r.left as int).len();
            let top = varint::two_byte_signed(r.top as int).len();
            let right = varint::two_byte_signed(r.right as int).len();
            let left_fits = -0x3FFF <= r.left <= 0x3FFF;
            let top_fits = -0x3FFF <= r.top <= 0x3FFF;
            let right_fits = -0x3FFF <= r.right <= 0x3FFF;
            &&& !left_fits ==> n == 0
            &&& left_fits && !top_fits ==> n == left
            &&& left_fits && top_fits && !right_fits ==> n == left + top
            &&& left_fits && top_fits && right_fits && !r.fits() ==> n == left + top + right
        }),
{
    lemma_longer(
        varint::two_byte_signed(r.left as int) + varint::two_byte_signed(r.top as int),
        varint::two_byte_signed(r.right as int),
    );
}

/// A sequence is a start of what it is continued to, and so are its own starts.
proof fn lemma_longer(a: Seq<u8>, b: Seq<u8>)
    ensures
        forall|s: Seq<u8>| #[trigger] s.is_prefix_of(a) ==> s.is_prefix_of(a + b),
{
    assert forall|s: Seq<u8>| #[trigger] s.is_prefix_of(a) implies s.is_prefix_of(a + b) by {
        assert((a + b).subrange(0, s.len() as int) =~= a.subrange(0, s.len() as int));
    }
}

/// The starts of a concatenation, the last part but one cut short or not.
proof fn lemma_starts(
    a: Seq<u8>,
    b: Seq<u8>,
    c: Seq<u8>,
    d: Seq<u8>,
    short: Seq<u8>,
    long: Seq<u8>,
    e: Seq<u8>,
)
    requires
        short.is_prefix_of(long),
    ensures
        a.is_prefix_of(a + b + c + d + long + e),
        (a + b).is_prefix_of(a + b + c + d + long + e),
        (a + b + c).is_prefix_of(a + b + c + d + long + e),
        (a + b + c + d + short).is_prefix_of(a + b + c + d + long + e),
        (a + b + c + d + long + e).is_prefix_of(a + b + c + d + long + e),
{
}

/// Models stand for what they are models of, one for one and in order.
pub proof fn models_keep_order(
    contacts: Seq<TouchContact>,
    pdus: Seq<pdu::RdpeiClientPdu>,
    models: Seq<PduModel>,
)
    ensures
        touch::contact_models(contacts).len() == contacts.len(),
        forall|i: int|
            0 <= i < contacts.len() ==> #[trigger] touch::contact_models(contacts)[i] == contacts[i]@,
        dvc::pdu_models(pdus).len() == pdus.len(),
        forall|i: int| 0 <= i < pdus.len() ==> #[trigger] dvc::pdu_models(pdus)[i] == pdus[i]@,
        dvc::wire_forms(models).len() == models.len(),
        forall|i: int|
            0 <= i < models.len() ==> #[trigger] dvc::wire_forms(models)[i] == models[i].bytes(),
{
}

/// What is sent are the messages that the channel makes of the wire forms without any channel flag:
/// no message says of itself that it is compressed, or anything else.
pub proof fn sent_without_channel_flags(
    result: Result<Vec<SvcMessage>, EncodeError>,
    channel_id: u32,
    pdus: Seq<PduModel>,
    wire: Seq<Seq<u8>>,
)
    requires
        wire.len() == pdus.len(),
        forall|i: int| 0 <= i < pdus.len() ==> #[trigger] wire[i] == pdus[i].bytes(),
    ensures
        dvc::sent(result, channel_id, pdus) ==> result is Ok && result->Ok_0@ == dvc::dvc_messages(
            channel_id,
            wire,
            0,
        ),
{
    assert(dvc::wire_forms(pdus) =~= wire);
}

/// A PDU takes the fewest messages of 1590 bytes that hold it, and PDUs do not share messages.
pub proof fn messages_are_filled(pdus: Seq<Seq<u8>>, last: Seq<u8>)
    ensures
        dvc::message_count(Seq::empty()) == 0,
        ({
            let more = dvc::message_count(pdus.push(last)) - dvc::message_count(pdus);
            1590 * (more - 1) < last.len() <= 1590 * more
        }),
{
    assert(pdus.push(last).drop_last() =~= pdus);
}

} // verus!
