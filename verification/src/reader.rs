//! How the peer reads what the client writes, and that it gets what was written.
//!
//! Each reader takes the bytes that are left and gives the value together with the bytes behind
//! it. Nothing here is executable: the readers say what the wire forms mean.

use crate::constants::RDPINPUT_HEADER_LENGTH;
use crate::endian;
use crate::pdu::{PduModel, MAX_PAYLOAD_LENGTH};
use crate::touch;
use crate::touch::{ContactModel, ContactRect, FrameModel};
use crate::varint;
use vstd::prelude::*;

verus! {

/// Reads a `TWO_BYTE_UNSIGNED_INTEGER`.
#[verifier::opaque]
pub open spec fn read_two_byte_unsigned(s: Seq<u8>) -> Option<(nat, Seq<u8>)> {
    if s.len() < 1 {
        None
    } else if s[0] < 0x80 {
        Some((s[0] as nat, s.skip(1)))
    } else if s.len() < 2 {
        None
    } else {
        Some((256 * (s[0] % 0x80) as nat + s[1] as nat, s.skip(2)))
    }
}

/// Reads a `TWO_BYTE_SIGNED_INTEGER`.
#[verifier::opaque]
pub open spec fn read_two_byte_signed(s: Seq<u8>) -> Option<(int, Seq<u8>)> {
    if s.len() < 1 {
        None
    } else {
        let negative = s[0] % 0x80 >= 0x40;
        if s[0] < 0x80 {
            Some((with_sign(negative, (s[0] % 0x40) as nat), s.skip(1)))
        } else if s.len() < 2 {
            None
        } else {
            Some((with_sign(negative, 256 * (s[0] % 0x40) as nat + s[1] as nat), s.skip(2)))
        }
    }
}

/// Reads a `FOUR_BYTE_UNSIGNED_INTEGER`.
#[verifier::opaque]
pub open spec fn read_four_byte_unsigned(s: Seq<u8>) -> Option<(nat, Seq<u8>)> {
    if s.len() < 1 {
        None
    } else {
        let n = (s[0] / 0x40) as int;
        if s.len() < 1 + n {
            None
        } else {
            Some((varint::join_bytes((s[0] % 0x40) as nat, s.subrange(1, 1 + n)), s.skip(1 + n)))
        }
    }
}

/// Reads a `FOUR_BYTE_SIGNED_INTEGER`.
#[verifier::opaque]
pub open spec fn read_four_byte_signed(s: Seq<u8>) -> Option<(int, Seq<u8>)> {
    if s.len() < 1 {
        None
    } else {
        let n = (s[0] / 0x40) as int;
        let negative = s[0] % 0x40 >= 0x20;
        if s.len() < 1 + n {
            None
        } else {
            Some(
                (
                    with_sign(negative, varint::join_bytes((s[0] % 0x20) as nat, s.subrange(1, 1 + n))),
                    s.skip(1 + n),
                ),
            )
        }
    }
}

/// Reads an `EIGHT_BYTE_UNSIGNED_INTEGER`.
#[verifier::opaque]
pub open spec fn read_eight_byte_unsigned(s: Seq<u8>) -> Option<(nat, Seq<u8>)> {
    if s.len() < 1 {
        None
    } else {
        let n = (s[0] / 0x20) as int;
        if s.len() < 1 + n {
            None
        } else {
            Some((varint::join_bytes((s[0] % 0x20) as nat, s.subrange(1, 1 + n)), s.skip(1 + n)))
        }
    }
}

/// The number of magnitude `m` that is negative or not.
pub open spec fn with_sign(negative: bool, m: nat) -> int {
    if negative {
        -(m as int)
    } else {
        m as int
    }
}

/// A `TWO_BYTE_UNSIGNED_INTEGER` reads back as what was written, whatever follows it.
pub proof fn two_byte_unsigned_reads_back(v: u16, rest: Seq<u8>)
    requires
        v <= varint::TWO_BYTE_UNSIGNED_MAX,
    ensures
        read_two_byte_unsigned(varint::two_byte_unsigned(v as nat) + rest) == Some((v as nat, rest)),
        1 <= varint::two_byte_unsigned(v as nat).len() <= 2,
{
    reveal(read_two_byte_unsigned);
    let code = varint::two_byte_unsigned(v as nat);
    assert((code + rest).skip(code.len() as int) =~= rest);
}

/// A `TWO_BYTE_SIGNED_INTEGER` reads back as what was written, whatever follows it.
pub proof fn two_byte_signed_reads_back(v: i16, rest: Seq<u8>)
    requires
        varint::magnitude(v as int) <= varint::TWO_BYTE_SIGNED_MAX,
    ensures
        read_two_byte_signed(varint::two_byte_signed(v as int) + rest) == Some((v as int, rest)),
        1 <= varint::two_byte_signed(v as int).len() <= 2,
{
    reveal(read_two_byte_signed);
    let code = varint::two_byte_signed(v as int);
    assert((code + rest).skip(code.len() as int) =~= rest);
}

/// A `FOUR_BYTE_UNSIGNED_INTEGER` reads back as what was written, whatever follows it.
pub proof fn four_byte_unsigned_reads_back(v: u32, rest: Seq<u8>)
    requires
        v <= varint::FOUR_BYTE_UNSIGNED_MAX,
    ensures
        read_four_byte_unsigned(varint::four_byte_unsigned(v as nat) + rest) == Some((v as nat, rest)),
        1 <= varint::four_byte_unsigned(v as nat).len() <= 4,
{
    reveal(read_four_byte_unsigned);
    let n = varint::tail_len(v as nat, 0x40);
    assert(n <= 3) by {
        reveal_with_fuel(varint::tail_len, 5);
    }
    lemma_tail(v as nat, 0x40);
    let s = varint::four_byte_unsigned(v as nat) + rest;
    assert(s.subrange(1, 1 + n as int) =~= varint::low_bytes(v as nat, n));
    assert(s.skip(1 + n as int) =~= rest);
}

/// A `FOUR_BYTE_SIGNED_INTEGER` reads back as what was written, whatever follows it.
pub proof fn four_byte_signed_reads_back(v: i32, rest: Seq<u8>)
    requires
        varint::magnitude(v as int) <= varint::FOUR_BYTE_SIGNED_MAX,
    ensures
        read_four_byte_signed(varint::four_byte_signed(v as int) + rest) == Some((v as int, rest)),
        1 <= varint::four_byte_signed(v as int).len() <= 4,
{
    reveal(read_four_byte_signed);
    let m = varint::magnitude(v as int);
    let n = varint::tail_len(m, 0x20);
    assert(n <= 3) by {
        reveal_with_fuel(varint::tail_len, 5);
    }
    lemma_tail(m, 0x20);
    let s = varint::four_byte_signed(v as int) + rest;
    assert(s.subrange(1, 1 + n as int) =~= varint::low_bytes(m, n));
    assert(s.skip(1 + n as int) =~= rest);
}

/// An `EIGHT_BYTE_UNSIGNED_INTEGER` reads back as what was written, whatever follows it.
pub proof fn eight_byte_unsigned_reads_back(v: u64, rest: Seq<u8>)
    requires
        v <= varint::EIGHT_BYTE_UNSIGNED_MAX,
    ensures
        read_eight_byte_unsigned(varint::eight_byte_unsigned(v as nat) + rest) == Some((v as nat, rest)),
        1 <= varint::eight_byte_unsigned(v as nat).len() <= 8,
{
    reveal(read_eight_byte_unsigned);
    let n = varint::tail_len(v as nat, 0x20);
    assert(n <= 7) by {
        reveal_with_fuel(varint::tail_len, 9);
    }
    lemma_tail(v as nat, 0x20);
    let s = varint::eight_byte_unsigned(v as nat) + rest;
    assert(s.subrange(1, 1 + n as int) =~= varint::low_bytes(v as nat, n));
    assert(s.skip(1 + n as int) =~= rest);
}

/// Reads a contact rectangle.
pub open spec fn read_rect(s: Seq<u8>) -> Option<(ContactRect, Seq<u8>)> {
    match read_two_byte_signed(s) {
        None => None,
        Some((left, s)) => match read_two_byte_signed(s) {
            None => None,
            Some((top, s)) => match read_two_byte_signed(s) {
                None => None,
                Some((right, s)) => match read_two_byte_signed(s) {
                    None => None,
                    Some((bottom, s)) => Some(
                        (
                            ContactRect {
                                left: left as i16,
                                top: top as i16,
                                right: right as i16,
                                bottom: bottom as i16,
                            },
                            s,
                        ),
                    ),
                },
            },
        },
    }
}

/// Reads a part that may be absent.
pub open spec fn read_optional(present: bool, s: Seq<u8>) -> Option<(Option<u32>, Seq<u8>)> {
    if !present {
        Some((None, s))
    } else {
        match read_four_byte_unsigned(s) {
            None => None,
            Some((v, s)) => Some((Some(v as u32), s)),
        }
    }
}

/// Reads a contact. One without a rectangle is none that this client writes.
pub open spec fn read_contact(s: Seq<u8>) -> Option<(ContactModel, Seq<u8>)> {
    if s.len() < 1 {
        None
    } else {
        match read_two_byte_unsigned(s.skip(1)) {
            None => None,
            Some((fields, s1)) => if fields % 2 == 0 {
                None
            } else {
                match read_four_byte_signed(s1) {
                    None => None,
                    Some((x, s2)) => match read_four_byte_signed(s2) {
                        None => None,
                        Some((y, s3)) => match read_four_byte_unsigned(s3) {
                            None => None,
                            Some((flags, s4)) => match read_rect(s4) {
                                None => None,
                                Some((rect, s5)) => match read_optional(fields / 2 % 2 == 1, s5) {
                                    None => None,
                                    Some((orientation, s6)) => match read_optional(
                                        fields / 4 % 2 == 1,
                                        s6,
                                    ) {
                                        None => None,
                                        Some((pressure, s7)) => Some(
                                            (
                                                ContactModel {
                                                    contact_id: s[0],
                                                    x: x as i32,
                                                    y: y as i32,
                                                    contact_flags: flags as u32,
                                                    rect,
                                                    orientation,
                                                    pressure,
                                                },
                                                s7,
                                            ),
                                        ),
                                    },
                                },
                            },
                        },
                    },
                }
            },
        }
    }
}

/// Reads `n` contacts.
pub open spec fn read_contacts(n: nat, s: Seq<u8>) -> Option<(Seq<ContactModel>, Seq<u8>)>
    decreases n,
{
    if n == 0 {
        Some((Seq::empty(), s))
    } else {
        match read_contact(s) {
            None => None,
            Some((contact, s)) => match read_contacts((n - 1) as nat, s) {
                None => None,
                Some((contacts, s)) => Some((seq![contact] + contacts, s)),
            },
        }
    }
}

/// Reads a frame.
pub open spec fn read_frame(s: Seq<u8>) -> Option<(FrameModel, Seq<u8>)> {
    match read_two_byte_unsigned(s) {
        None => None,
        Some((count, s)) => match read_eight_byte_unsigned(s) {
            None => None,
            Some((microseconds, s)) => match read_contacts(count, s) {
                None => None,
                Some((contacts, s)) => Some(
                    (FrameModel { frame_offset_ms: (microseconds / 1000) as u64, contacts }, s),
                ),
            },
        },
    }
}

/// Reads the payload of a touch event of one frame: the encode time and the frame.
pub open spec fn read_touch(s: Seq<u8>) -> Option<(u32, FrameModel, Seq<u8>)> {
    match read_four_byte_unsigned(s) {
        None => None,
        Some((encode_time_ms, s)) => match read_two_byte_unsigned(s) {
            None => None,
            Some((frame_count, s)) => if frame_count != 1 {
                None
            } else {
                match read_frame(s) {
                    None => None,
                    Some((frame, s)) => Some((encode_time_ms as u32, frame, s)),
                }
            },
        },
    }
}

/// Reads a PDU: the event and the payload that the length field bounds.
pub open spec fn read_pdu(s: Seq<u8>) -> Option<(PduModel, Seq<u8>)> {
    if s.len() < RDPINPUT_HEADER_LENGTH {
        None
    } else {
        let length = endian::read_u32(s.skip(2)) as int;
        if length < RDPINPUT_HEADER_LENGTH || length > s.len() {
            None
        } else {
            Some(
                (
                    PduModel {
                        event_id: endian::read_u16(s),
                        payload: s.subrange(RDPINPUT_HEADER_LENGTH as int, length),
                    },
                    s.skip(length),
                ),
            )
        }
    }
}

/// A contact that can be encoded reads back as what it is, whatever follows it.
pub proof fn contact_reads_back(c: ContactModel, rest: Seq<u8>)
    requires
        c.valid(),
        c.error() is None,
    ensures
        read_contact(c.bytes() + rest) == Some((c, rest)),
{
    let s7 = rest;
    let s6 = touch::optional_bytes(c.pressure) + s7;
    let s5 = touch::optional_bytes(c.orientation) + s6;
    let s4 = c.rect.bytes() + s5;
    let s3 = varint::four_byte_unsigned(c.contact_flags as nat) + s4;
    let s2 = varint::four_byte_signed(c.y as int) + s3;
    let s1 = varint::four_byte_signed(c.x as int) + s2;
    let s0 = varint::two_byte_unsigned(c.fields_present()) + s1;
    let s = c.bytes() + rest;
    lemma_nest_contact(
        seq![c.contact_id],
        varint::two_byte_unsigned(c.fields_present()),
        varint::four_byte_signed(c.x as int),
        varint::four_byte_signed(c.y as int),
        varint::four_byte_unsigned(c.contact_flags as nat),
        c.rect.bytes(),
        touch::optional_bytes(c.orientation),
        touch::optional_bytes(c.pressure),
        rest,
    );
    assert(s == seq![c.contact_id] + s0);
    assert(s.len() >= 1 && s[0] == c.contact_id && s.skip(1) == s0) by {
        lemma_behind_first(c.contact_id, s0);
    }
    two_byte_unsigned_reads_back(c.fields_present() as u16, s1);
    four_byte_signed_reads_back(c.x, s2);
    four_byte_signed_reads_back(c.y, s3);
    four_byte_unsigned_reads_back(c.contact_flags, s4);
    lemma_rect_reads_back(c.rect, s5);
    lemma_optional_reads_back(c.orientation, s6);
    lemma_optional_reads_back(c.pressure, s7);
}

/// Concatenation is associative, for the parts of a contact.
proof fn lemma_nest_contact(
    a: Seq<u8>,
    b: Seq<u8>,
    c: Seq<u8>,
    d: Seq<u8>,
    e: Seq<u8>,
    f: Seq<u8>,
    g: Seq<u8>,
    h: Seq<u8>,
    rest: Seq<u8>,
)
    ensures
        a + b + c + d + e + f + g + h + rest == a + (b + (c + (d + (e + (f + (g + (h + rest))))))),
{
    assert(a + b + c + d + e + f + g + h + rest =~= a + (b + (c + (d + (e + (f + (g + (h
        + rest))))))));
}

/// Concatenation is associative.
proof fn lemma_nest(a: Seq<u8>, b: Seq<u8>, c: Seq<u8>)
    ensures
        a + b + c == a + (b + c),
{
    assert(a + b + c =~= a + (b + c));
}

/// A byte in front comes off again.
proof fn lemma_behind_first(a: u8, s: Seq<u8>)
    ensures
        (seq![a] + s).len() >= 1,
        (seq![a] + s)[0] == a,
        (seq![a] + s).skip(1) == s,
{
    assert((seq![a] + s).skip(1) =~= s);
}

proof fn lemma_rect_reads_back(rect: ContactRect, rest: Seq<u8>)
    requires
        rect.fits(),
    ensures
        read_rect(rect.bytes() + rest) == Some((rect, rest)),
{
    let s3 = varint::two_byte_signed(rect.bottom as int) + rest;
    let s2 = varint::two_byte_signed(rect.right as int) + s3;
    let s1 = varint::two_byte_signed(rect.top as int) + s2;
    assert(rect.bytes() + rest =~= varint::two_byte_signed(rect.left as int) + s1);
    two_byte_signed_reads_back(rect.left, s1);
    two_byte_signed_reads_back(rect.top, s2);
    two_byte_signed_reads_back(rect.right, s3);
    two_byte_signed_reads_back(rect.bottom, rest);
}

proof fn lemma_optional_reads_back(v: Option<u32>, rest: Seq<u8>)
    requires
        v matches Some(v) ==> v <= varint::FOUR_BYTE_UNSIGNED_MAX,
    ensures
        read_optional(v is Some, touch::optional_bytes(v) + rest) == Some((v, rest)),
{
    match v {
        Some(v) => {
            four_byte_unsigned_reads_back(v, rest);
        },
        None => {
            assert(touch::optional_bytes(v) + rest =~= rest);
        },
    }
}

/// A row of contacts that can be encoded reads back as what it is, whatever follows it.
pub proof fn contacts_read_back(contacts: Seq<ContactModel>, rest: Seq<u8>)
    requires
        touch::all_valid(contacts),
        touch::contacts_error(contacts) is None,
    ensures
        read_contacts(contacts.len(), touch::contacts_bytes(contacts) + rest) == Some(
            (contacts, rest),
        ),
    decreases contacts.len(),
{
    if contacts.len() == 0 {
        assert(touch::contacts_bytes(contacts) + rest =~= rest);
        assert(contacts =~= Seq::empty());
    } else {
        let first = contacts.first();
        let others = contacts.drop_first();
        lemma_split_first(contacts);
        let tail = touch::contacts_bytes(others) + rest;
        lemma_nest(first.bytes(), touch::contacts_bytes(others), rest);
        contact_reads_back(first, tail);
        assert forall|i: int| 0 <= i < others.len() implies (#[trigger] others[i]).valid() by {
            assert(others[i] == contacts[i + 1]);
        }
        contacts_read_back(others, rest);
        assert(seq![first] + others =~= contacts);
    }
}

/// A row of contacts is its first one and the others, in bytes and in errors.
proof fn lemma_split_first(contacts: Seq<ContactModel>)
    requires
        contacts.len() > 0,
    ensures
        touch::contacts_bytes(contacts) == contacts.first().bytes() + touch::contacts_bytes(
            contacts.drop_first(),
        ),
        touch::contacts_error(contacts) is None ==> contacts.first().error() is None
            && touch::contacts_error(contacts.drop_first()) is None,
    decreases contacts.len(),
{
    let first = contacts.first();
    if contacts.len() == 1 {
        assert(contacts.drop_last() =~= Seq::empty());
        assert(contacts.drop_first() =~= Seq::empty());
        reveal_with_fuel(touch::contacts_bytes, 2);
        reveal_with_fuel(touch::contacts_error, 2);
        assert(touch::contacts_bytes(contacts) =~= first.bytes() + touch::contacts_bytes(
            contacts.drop_first(),
        ));
    } else {
        lemma_split_first(contacts.drop_last());
        assert(contacts.drop_last().drop_first() =~= contacts.drop_first().drop_last());
        assert(contacts.drop_first().last() == contacts.last());
        assert(touch::contacts_bytes(contacts) =~= first.bytes() + touch::contacts_bytes(
            contacts.drop_first(),
        ));
    }
}

/// A touch event reads back as the time and the frame that it was made of, with nothing left over.
pub proof fn touch_reads_back(encode_time_ms: u32, frame: FrameModel)
    requires
        touch::all_valid(frame.contacts),
        PduModel::touch_error(encode_time_ms, frame) is None,
    ensures
        read_touch(PduModel::touch(encode_time_ms, frame).payload) == Some(
            (encode_time_ms, frame, Seq::<u8>::empty()),
        ),
{
    let end = Seq::<u8>::empty();
    let microseconds = frame.frame_offset_us();
    let s4 = touch::contacts_bytes(frame.contacts) + end;
    let s3 = varint::eight_byte_unsigned(microseconds) + s4;
    let s2 = varint::two_byte_unsigned(frame.contacts.len()) + s3;
    let s1 = varint::two_byte_unsigned(1) + s2;
    let payload = PduModel::touch(encode_time_ms, frame).payload;
    assert(payload =~= varint::four_byte_unsigned(encode_time_ms as nat) + s1);
    four_byte_unsigned_reads_back(encode_time_ms, s1);
    two_byte_unsigned_reads_back(1, s2);
    two_byte_unsigned_reads_back(frame.contacts.len() as u16, s3);
    eight_byte_unsigned_reads_back(microseconds as u64, s4);
    contacts_read_back(frame.contacts, end);
}

/// Touch events of different times or frames are different bytes.
pub proof fn touch_is_injective(t1: u32, f1: FrameModel, t2: u32, f2: FrameModel)
    requires
        touch::all_valid(f1.contacts),
        touch::all_valid(f2.contacts),
        PduModel::touch_error(t1, f1) is None,
        PduModel::touch_error(t2, f2) is None,
        PduModel::touch(t1, f1).bytes() == PduModel::touch(t2, f2).bytes(),
    ensures
        t1 == t2,
        f1 == f2,
{
    let a = PduModel::touch(t1, f1);
    let b = PduModel::touch(t2, f2);
    assert(a.payload =~= a.bytes().skip(6));
    assert(b.payload =~= b.bytes().skip(6));
    touch_reads_back(t1, f1);
    touch_reads_back(t2, f2);
}

/// A PDU of a length that a client PDU can have reads back as what it is, whatever follows it: the
/// length field is the length of the PDU.
pub proof fn pdu_reads_back(pdu: PduModel, rest: Seq<u8>)
    requires
        pdu.payload.len() <= MAX_PAYLOAD_LENGTH,
    ensures
        read_pdu(pdu.bytes() + rest) == Some((pdu, rest)),
        pdu.bytes().len() == pdu.length(),
{
    let s = pdu.bytes() + rest;
    let length = pdu.length();
    endian::integers_read_back(pdu.event_id, 0, endian::u32_bytes(length as u32) + pdu.payload + rest);
    endian::integers_read_back(0, length as u32, pdu.payload + rest);
    assert(s =~= endian::u16_bytes(pdu.event_id) + (endian::u32_bytes(length as u32) + pdu.payload
        + rest));
    assert(s.skip(2) =~= endian::u32_bytes(length as u32) + (pdu.payload + rest));
    assert(s.subrange(6, length as int) =~= pdu.payload);
    assert(s.skip(length as int) =~= rest);
}

/// What is left of `v` in the first byte is below `cap`, as many bytes follow as were cut off,
/// and together they are `v` again.
proof fn lemma_tail(v: nat, cap: nat)
    requires
        cap > 0,
    ensures
        varint::without_low_bytes(v, varint::tail_len(v, cap)) < cap,
        varint::low_bytes(v, varint::tail_len(v, cap)).len() == varint::tail_len(v, cap),
        varint::join_bytes(
            varint::without_low_bytes(v, varint::tail_len(v, cap)),
            varint::low_bytes(v, varint::tail_len(v, cap)),
        ) == v,
    decreases v,
{
    if v < cap {
    } else {
        lemma_tail(v / 256, cap);
        let n = varint::tail_len(v, cap);
        assert(varint::low_bytes(v, n).drop_last() =~= varint::low_bytes(v / 256, (n - 1) as nat));
    }
}

} // verus!
