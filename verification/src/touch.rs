//! Touch contacts and the frames that carry them.

use crate::constants::{
    CONTACT_DATA_CONTACTRECT_PRESENT, CONTACT_DATA_ORIENTATION_PRESENT,
    CONTACT_DATA_PRESSURE_PRESENT, TOUCH_RECT_SIZE,
};
use crate::error::EncodeError;
use crate::varint;
use crate::varint::{
    write_2byte_signed, write_2byte_unsigned, write_4byte_signed, write_4byte_unsigned,
    write_8byte_unsigned,
};
use vstd::prelude::*;

verus! {

/// The rectangle around a contact.
pub struct ContactRect {
    pub left: i16,
    pub top: i16,
    pub right: i16,
    pub bottom: i16,
}

/// What a [`TouchContact`] says: where the contact is, what it does, and what is known of it.
pub struct ContactModel {
    pub contact_id: u8,
    pub x: i32,
    pub y: i32,
    pub contact_flags: u32,
    pub rect: ContactRect,
    pub orientation: Option<u32>,
    pub pressure: Option<u32>,
}

impl ContactModel {
    /// A contact at a position, with the rectangle around it and nothing else known of it.
    pub open spec fn at(contact_id: u8, x: i32, y: i32, contact_flags: u32) -> ContactModel {
        ContactModel {
            contact_id,
            x,
            y,
            contact_flags,
            rect: rect_around(x, y),
            orientation: None,
            pressure: None,
        }
    }

    /// The rectangle lies around the position, the orientation is an angle in degrees and the
    /// pressure is on its scale.
    pub open spec fn valid(self) -> bool {
        &&& self.rect == rect_around(self.x, self.y)
        &&& self.orientation matches Some(degrees) ==> degrees < 360
        &&& self.pressure matches Some(pressure) ==> pressure <= 1024
    }

    /// The bits that announce the optional parts of a contact.
    pub open spec fn fields_present(self) -> nat {
        (CONTACT_DATA_CONTACTRECT_PRESENT + (if self.orientation is Some {
            CONTACT_DATA_ORIENTATION_PRESENT
        } else {
            0u16
        }) + (if self.pressure is Some {
            CONTACT_DATA_PRESSURE_PRESENT
        } else {
            0u16
        })) as nat
    }

    /// Wire form of a contact.
    pub open spec fn bytes(self) -> Seq<u8> {
        seq![self.contact_id] + varint::two_byte_unsigned(self.fields_present())
            + varint::four_byte_signed(self.x as int) + varint::four_byte_signed(self.y as int)
            + varint::four_byte_unsigned(self.contact_flags as nat) + self.rect.bytes()
            + optional_bytes(self.orientation) + optional_bytes(self.pressure)
    }

    /// The wire forms of the parts in front of the first one that does not fit; all of them where
    /// every part fits.
    pub open spec fn bytes_until_error(self) -> Seq<u8> {
        let head = seq![self.contact_id] + varint::two_byte_unsigned(self.fields_present());
        let x = varint::four_byte_signed(self.x as int);
        let y = varint::four_byte_signed(self.y as int);
        let flags = varint::four_byte_unsigned(self.contact_flags as nat);
        if varint::magnitude(self.x as int) > varint::FOUR_BYTE_SIGNED_MAX {
            head
        } else if varint::magnitude(self.y as int) > varint::FOUR_BYTE_SIGNED_MAX {
            head + x
        } else if self.contact_flags > varint::FOUR_BYTE_UNSIGNED_MAX {
            head + x + y
        } else if !self.rect.fits() {
            head + x + y + flags + self.rect.bytes_until_error()
        } else {
            self.bytes()
        }
    }

    /// The error that stops the encoding of a contact: that of the first part that does not fit.
    pub open spec fn error(self) -> Option<EncodeError> {
        if varint::magnitude(self.x as int) > varint::FOUR_BYTE_SIGNED_MAX || varint::magnitude(
            self.y as int,
        ) > varint::FOUR_BYTE_SIGNED_MAX {
            Some(EncodeError::FourByteSignedOutOfRange)
        } else if self.contact_flags > varint::FOUR_BYTE_UNSIGNED_MAX {
            Some(EncodeError::FourByteUnsignedOutOfRange)
        } else if !self.rect.fits() {
            Some(EncodeError::TwoByteSignedOutOfRange)
        } else {
            None
        }
    }
}

impl ContactRect {
    /// The wire forms of the sides in front of the first one that does not fit; all of them where
    /// every side fits.
    pub open spec fn bytes_until_error(self) -> Seq<u8> {
        let left = varint::two_byte_signed(self.left as int);
        let top = varint::two_byte_signed(self.top as int);
        let right = varint::two_byte_signed(self.right as int);
        if varint::magnitude(self.left as int) > varint::TWO_BYTE_SIGNED_MAX {
            Seq::empty()
        } else if varint::magnitude(self.top as int) > varint::TWO_BYTE_SIGNED_MAX {
            left
        } else if varint::magnitude(self.right as int) > varint::TWO_BYTE_SIGNED_MAX {
            left + top
        } else if varint::magnitude(self.bottom as int) > varint::TWO_BYTE_SIGNED_MAX {
            left + top + right
        } else {
            self.bytes()
        }
    }

    /// Wire form of the rectangle.
    pub open spec fn bytes(self) -> Seq<u8> {
        varint::two_byte_signed(self.left as int) + varint::two_byte_signed(self.top as int)
            + varint::two_byte_signed(self.right as int) + varint::two_byte_signed(
            self.bottom as int,
        )
    }

    /// Every side of the rectangle is small enough for the wire.
    pub open spec fn fits(self) -> bool {
        &&& varint::magnitude(self.left as int) <= varint::TWO_BYTE_SIGNED_MAX
        &&& varint::magnitude(self.top as int) <= varint::TWO_BYTE_SIGNED_MAX
        &&& varint::magnitude(self.right as int) <= varint::TWO_BYTE_SIGNED_MAX
        &&& varint::magnitude(self.bottom as int) <= varint::TWO_BYTE_SIGNED_MAX
    }
}

/// The `i16` that is nearest to `v`.
pub open spec fn nearest_i16(v: int) -> i16 {
    if v < i16::MIN {
        i16::MIN
    } else if v > i16::MAX {
        i16::MAX
    } else {
        v as i16
    }
}

/// The rectangle around `x`, `y`, cut off where coordinates of 16 bits end.
pub open spec fn rect_around(x: i32, y: i32) -> ContactRect {
    ContactRect {
        left: nearest_i16(x - TOUCH_RECT_SIZE),
        top: nearest_i16(y - TOUCH_RECT_SIZE),
        right: nearest_i16(x + TOUCH_RECT_SIZE),
        bottom: nearest_i16(y + TOUCH_RECT_SIZE),
    }
}

/// Wire form of an optional part: nothing where it is absent.
pub open spec fn optional_bytes(v: Option<u32>) -> Seq<u8> {
    match v {
        Some(v) => varint::four_byte_unsigned(v as nat),
        None => Seq::empty(),
    }
}

/// One touch contact.
#[derive(Debug, PartialEq, Eq)]
pub struct TouchContact {
    contact_id: u8,
    x: i32,
    y: i32,
    fields_present: u16,
    contact_flags: u32,
    contact_rect_left: i16,
    contact_rect_top: i16,
    contact_rect_right: i16,
    contact_rect_bottom: i16,
    orientation: u32,
    pressure: u32,
}

impl View for TouchContact {
    type V = ContactModel;

    closed spec fn view(&self) -> ContactModel {
        ContactModel {
            contact_id: self.contact_id,
            x: self.x,
            y: self.y,
            contact_flags: self.contact_flags,
            rect: ContactRect {
                left: self.contact_rect_left,
                top: self.contact_rect_top,
                right: self.contact_rect_right,
                bottom: self.contact_rect_bottom,
            },
            orientation: if self.fields_present & CONTACT_DATA_ORIENTATION_PRESENT != 0 {
                Some(self.orientation)
            } else {
                None
            },
            pressure: if self.fields_present & CONTACT_DATA_PRESSURE_PRESENT != 0 {
                Some(self.pressure)
            } else {
                None
            },
        }
    }
}

impl Clone for TouchContact {
    fn clone(&self) -> (copy: Self)
        ensures
            copy == *self,
            copy@.valid(),
    {
        proof {
            use_type_invariant(self);
        }
        TouchContact {
            contact_id: self.contact_id,
            x: self.x,
            y: self.y,
            fields_present: self.fields_present,
            contact_flags: self.contact_flags,
            contact_rect_left: self.contact_rect_left,
            contact_rect_top: self.contact_rect_top,
            contact_rect_right: self.contact_rect_right,
            contact_rect_bottom: self.contact_rect_bottom,
            orientation: self.orientation,
            pressure: self.pressure,
        }
    }
}

impl TouchContact {
    /// The rectangle is always there and lies around the position, no unknown bit is set, what is
    /// absent is zero, and what is present is in range.
    #[verifier::type_invariant]
    spec fn inv(self) -> bool {
        &&& self@.rect == rect_around(self.x, self.y)
        &&& self.fields_present <= 7
        &&& self.fields_present & CONTACT_DATA_CONTACTRECT_PRESENT != 0
        &&& self.fields_present & CONTACT_DATA_ORIENTATION_PRESENT == 0 ==> self.orientation == 0
        &&& self.fields_present & CONTACT_DATA_PRESSURE_PRESENT == 0 ==> self.pressure == 0
        &&& self.orientation < 360
        &&& self.pressure <= 1024
    }

    /// A contact at `x`, `y`, with a small rectangle around it.
    #[must_use]
    pub fn new(contact_id: u8, x: i32, y: i32, contact_flags: u32) -> (contact: Self)
        ensures
            contact@ == ContactModel::at(contact_id, x, y, contact_flags),
            contact@.valid(),
    {
        proof {
            assert(1u16 & 1 != 0 && 1u16 & 2 == 0 && 1u16 & 4 == 0) by (bit_vector);
        }
        TouchContact {
            contact_id,
            x,
            y,
            fields_present: CONTACT_DATA_CONTACTRECT_PRESENT,
            contact_flags,
            contact_rect_left: bounded_i16(saturating_sub(x, TOUCH_RECT_SIZE)),
            contact_rect_top: bounded_i16(saturating_sub(y, TOUCH_RECT_SIZE)),
            contact_rect_right: bounded_i16(saturating_add(x, TOUCH_RECT_SIZE)),
            contact_rect_bottom: bounded_i16(saturating_add(y, TOUCH_RECT_SIZE)),
            orientation: 0,
            pressure: 0,
        }
    }

    /// The same contact with an orientation in degrees.
    pub fn with_orientation(self, orientation: u32) -> (result: Result<Self, EncodeError>)
        ensures
            orientation < 360 ==> (result matches Ok(contact) && contact@ == (ContactModel {
                orientation: Some(orientation),
                ..self@
            }) && contact@.valid()),
            orientation >= 360 ==> (result matches Err(e) && e
                == EncodeError::OrientationOutOfRange),
    {
        proof {
            use_type_invariant(&self);
        }
        if orientation >= 360 {
            return Err(EncodeError::OrientationOutOfRange);
        }
        proof {
            let fields = self.fields_present;
            assert(fields <= 7 && fields & 1 != 0 ==> fields | 2 <= 7 && (fields | 2) & 1 != 0 && (
            fields | 2) & 2 != 0 && (fields | 2) & 4 == fields & 4) by (bit_vector);
        }
        Ok(
            TouchContact {
                fields_present: self.fields_present | CONTACT_DATA_ORIENTATION_PRESENT,
                orientation,
                ..self
            },
        )
    }

    /// The same contact with a pressure.
    pub fn with_pressure(self, pressure: u32) -> (result: Result<Self, EncodeError>)
        ensures
            pressure <= 1024 ==> (result matches Ok(contact) && contact@ == (ContactModel {
                pressure: Some(pressure),
                ..self@
            }) && contact@.valid()),
            pressure > 1024 ==> (result matches Err(e) && e == EncodeError::PressureOutOfRange),
    {
        proof {
            use_type_invariant(&self);
        }
        if pressure > 1024 {
            return Err(EncodeError::PressureOutOfRange);
        }
        proof {
            let fields = self.fields_present;
            assert(fields <= 7 && fields & 1 != 0 ==> fields | 4 <= 7 && (fields | 4) & 1 != 0 && (
            fields | 4) & 4 != 0 && (fields | 4) & 2 == fields & 2) by (bit_vector);
        }
        Ok(
            TouchContact {
                fields_present: self.fields_present | CONTACT_DATA_PRESSURE_PRESENT,
                pressure,
                ..self
            },
        )
    }

    /// The same contact, with a pressure if there is one.
    pub fn with_pressure_opt(self, pressure: Option<u32>) -> (result: Result<Self, EncodeError>)
        ensures
            match pressure {
                Some(p) if p > 1024 => result matches Err(e) && e
                    == EncodeError::PressureOutOfRange,
                Some(p) => result matches Ok(contact) && contact@ == (ContactModel {
                    pressure: Some(p),
                    ..self@
                }) && contact@.valid(),
                None => result == Ok::<Self, EncodeError>(self) && self@.valid(),
            },
    {
        proof {
            use_type_invariant(&self);
        }
        if let Some(pressure) = pressure {
            self.with_pressure(pressure)
        } else {
            Ok(self)
        }
    }

    /// Appends the wire form of the contact. Where a part does not fit, those before it are
    /// appended all the same.
    fn encode_payload(&self, dst: &mut Vec<u8>) -> (result: Result<(), EncodeError>)
        ensures
            match self@.error() {
                None => result == Ok::<(), EncodeError>(()) && final(dst)@ == old(dst)@
                    + self@.bytes(),
                Some(e) => result == Err::<(), EncodeError>(e) && final(dst)@ == old(dst)@
                    + self@.bytes_until_error(),
            },
            self@.valid(),
    {
        proof {
            use_type_invariant(self);
            let fields = self.fields_present;
            assert(fields <= 7 && fields & 1 != 0 ==> fields == 1 + (if fields & 2 != 0 {
                2u16
            } else {
                0
            }) + (if fields & 4 != 0 {
                4u16
            } else {
                0
            })) by (bit_vector);
        }
        let ghost base = old(dst)@;
        let ghost c = self@;
        dst.push(self.contact_id);
        let ghost p0 = seq![c.contact_id];
        assert(dst@ =~= base + p0);
        write_2byte_unsigned(dst, self.fields_present)?;
        let ghost p1 = p0 + varint::two_byte_unsigned(c.fields_present());
        proof {
            lemma_grow(base, p0, varint::two_byte_unsigned(c.fields_present()));
        }
        write_4byte_signed(dst, self.x)?;
        let ghost p2 = p1 + varint::four_byte_signed(c.x as int);
        proof {
            lemma_grow(base, p1, varint::four_byte_signed(c.x as int));
        }
        write_4byte_signed(dst, self.y)?;
        let ghost p3 = p2 + varint::four_byte_signed(c.y as int);
        proof {
            lemma_grow(base, p2, varint::four_byte_signed(c.y as int));
        }
        write_4byte_unsigned(dst, self.contact_flags)?;
        let ghost p4 = p3 + varint::four_byte_unsigned(c.contact_flags as nat);
        proof {
            lemma_grow(base, p3, varint::four_byte_unsigned(c.contact_flags as nat));
        }
        proof {
            lemma_grow(base, p4, c.rect.bytes());
            lemma_grow(base, p4, c.rect.bytes_until_error());
        }
        if self.fields_present & CONTACT_DATA_CONTACTRECT_PRESENT != 0 {
            self.encode_rect(dst)?;
        }
        let ghost p5 = p4 + c.rect.bytes();
        if self.fields_present & CONTACT_DATA_ORIENTATION_PRESENT != 0 {
            write_4byte_unsigned(dst, self.orientation)?;
        }
        let ghost p6 = p5 + optional_bytes(c.orientation);
        proof {
            lemma_grow(base, p5, optional_bytes(c.orientation));
        }
        if self.fields_present & CONTACT_DATA_PRESSURE_PRESENT != 0 {
            write_4byte_unsigned(dst, self.pressure)?;
        }
        proof {
            lemma_grow(base, p6, optional_bytes(c.pressure));
        }
        Ok(())
    }

    /// Appends the wire form of the contact rectangle.
    fn encode_rect(&self, dst: &mut Vec<u8>) -> (result: Result<(), EncodeError>)
        ensures
            self@.rect.fits() ==> result == Ok::<(), EncodeError>(()) && final(dst)@ == old(dst)@
                + self@.rect.bytes(),
            !self@.rect.fits() ==> result == Err::<(), EncodeError>(
                EncodeError::TwoByteSignedOutOfRange,
            ) && final(dst)@ == old(dst)@ + self@.rect.bytes_until_error(),
    {
        let ghost base = old(dst)@;
        let ghost left = varint::two_byte_signed(self@.rect.left as int);
        let ghost top = varint::two_byte_signed(self@.rect.top as int);
        let ghost right = varint::two_byte_signed(self@.rect.right as int);
        assert(base + Seq::<u8>::empty() =~= base);
        write_2byte_signed(dst, self.contact_rect_left)?;
        write_2byte_signed(dst, self.contact_rect_top)?;
        assert(dst@ =~= base + (left + top));
        write_2byte_signed(dst, self.contact_rect_right)?;
        assert(dst@ =~= base + (left + top + right));
        write_2byte_signed(dst, self.contact_rect_bottom)?;
        assert(dst@ =~= base + self@.rect.bytes());
        Ok(())
    }
}

/// The models of a row of contacts.
pub open spec fn contact_models(contacts: Seq<TouchContact>) -> Seq<ContactModel> {
    Seq::new(contacts.len(), |i: int| contacts[i]@)
}

/// Every contact of a row is valid.
pub open spec fn all_valid(contacts: Seq<ContactModel>) -> bool {
    forall|i: int| 0 <= i < contacts.len() ==> (#[trigger] contacts[i]).valid()
}

/// Wire form of a row of contacts: one behind the other.
pub open spec fn contacts_bytes(contacts: Seq<ContactModel>) -> Seq<u8>
    decreases contacts.len(),
{
    if contacts.len() == 0 {
        Seq::empty()
    } else {
        contacts_bytes(contacts.drop_last()) + contacts.last().bytes()
    }
}

/// The error of the first contact in a row that has one.
pub open spec fn contacts_error(contacts: Seq<ContactModel>) -> Option<EncodeError>
    decreases contacts.len(),
{
    if contacts.len() == 0 {
        None
    } else {
        match contacts_error(contacts.drop_last()) {
            Some(e) => Some(e),
            None => contacts.last().error(),
        }
    }
}

/// The contacts in front of the first one that does not fit, and of that one what goes in front of
/// the part that does not fit; all of them where every contact fits.
pub open spec fn contacts_bytes_until_error(contacts: Seq<ContactModel>) -> Seq<u8>
    decreases contacts.len(),
{
    if contacts.len() == 0 {
        Seq::empty()
    } else if contacts_error(contacts.drop_last()) is Some {
        contacts_bytes_until_error(contacts.drop_last())
    } else {
        contacts_bytes(contacts.drop_last()) + contacts.last().bytes_until_error()
    }
}

/// What a [`TouchFrame`] says: contacts that were sampled together, and when.
#[verifier::ext_equal]
pub struct FrameModel {
    pub frame_offset_ms: u64,
    pub contacts: Seq<ContactModel>,
}

impl FrameModel {
    /// The time offset in the unit of the wire, microseconds, held at the largest `u64`.
    pub open spec fn frame_offset_us(self) -> nat {
        if self.frame_offset_ms * 1000 > u64::MAX {
            u64::MAX as nat
        } else {
            (self.frame_offset_ms * 1000) as nat
        }
    }

    /// Wire form of a frame.
    pub open spec fn bytes(self) -> Seq<u8> {
        varint::two_byte_unsigned(self.contacts.len()) + varint::eight_byte_unsigned(
            self.frame_offset_us(),
        ) + contacts_bytes(self.contacts)
    }

    /// The wire forms of the parts in front of the first one that does not fit; all of them where
    /// every part fits.
    pub open spec fn bytes_until_error(self) -> Seq<u8> {
        let count = varint::two_byte_unsigned(self.contacts.len());
        if self.contacts.len() > varint::TWO_BYTE_UNSIGNED_MAX {
            Seq::empty()
        } else if self.frame_offset_us() > varint::EIGHT_BYTE_UNSIGNED_MAX {
            count
        } else {
            count + varint::eight_byte_unsigned(self.frame_offset_us())
                + contacts_bytes_until_error(self.contacts)
        }
    }

    /// The error that stops the encoding of a frame: that of the first part that does not fit.
    pub open spec fn error(self) -> Option<EncodeError> {
        if self.contacts.len() > varint::TWO_BYTE_UNSIGNED_MAX {
            Some(EncodeError::TwoByteUnsignedOutOfRange)
        } else if self.frame_offset_us() > varint::EIGHT_BYTE_UNSIGNED_MAX {
            Some(EncodeError::EightByteUnsignedOutOfRange)
        } else {
            contacts_error(self.contacts)
        }
    }

    /// The error that stops the making of a frame: it has to have a contact, and not more than a
    /// 16-bit counter can count.
    pub open spec fn creation_error(contact_count: nat) -> Option<EncodeError> {
        if contact_count == 0 {
            Some(EncodeError::NoContacts)
        } else if contact_count > u16::MAX {
            Some(EncodeError::TooManyContacts)
        } else {
            None
        }
    }
}

/// Contacts that were sampled together.
#[derive(Debug, PartialEq, Eq)]
pub struct TouchFrame {
    frame_offset_ms: u64,
    contacts: Vec<TouchContact>,
}

impl View for TouchFrame {
    type V = FrameModel;

    closed spec fn view(&self) -> FrameModel {
        FrameModel {
            frame_offset_ms: self.frame_offset_ms,
            contacts: contact_models(self.contacts@),
        }
    }
}

impl Clone for TouchFrame {
    fn clone(&self) -> (copy: Self)
        ensures
            copy@ == self@,
    {
        proof {
            use_type_invariant(self);
        }
        let contacts = self.contacts.clone();
        assert(contact_models(contacts@) =~= contact_models(self.contacts@));
        TouchFrame { frame_offset_ms: self.frame_offset_ms, contacts }
    }
}

impl TouchFrame {
    /// There is a contact, and a 16-bit counter can count them.
    #[verifier::type_invariant]
    spec fn inv(self) -> bool {
        1 <= self.contacts@.len() <= u16::MAX
    }

    /// A frame of `contacts`, `frame_offset_ms` milliseconds after the one before it.
    pub fn new(frame_offset_ms: u64, contacts: Vec<TouchContact>) -> (result: Result<
        Self,
        EncodeError,
    >)
        ensures
            match FrameModel::creation_error(contacts@.len()) {
                None => result matches Ok(frame) && frame@ == (FrameModel {
                    frame_offset_ms,
                    contacts: contact_models(contacts@),
                }),
                Some(e) => result == Err::<Self, EncodeError>(e),
            },
    {
        if contacts.len() == 0 {
            return Err(EncodeError::NoContacts);
        }
        if contacts.len() > u16::MAX as usize {
            return Err(EncodeError::TooManyContacts);
        }
        Ok(TouchFrame { frame_offset_ms, contacts })
    }

    /// The number of contacts.
    pub(crate) fn contact_count(&self) -> (count: usize)
        ensures
            count == self@.contacts.len(),
            1 <= count <= u16::MAX,
    {
        proof {
            use_type_invariant(self);
        }
        self.contacts.len()
    }

    /// Appends the wire form of the frame. Where a part does not fit, those before it are appended
    /// all the same.
    pub(crate) fn encode_payload(&self, dst: &mut Vec<u8>) -> (result: Result<(), EncodeError>)
        ensures
            match self@.error() {
                None => result == Ok::<(), EncodeError>(()) && final(dst)@ == old(dst)@
                    + self@.bytes() && all_valid(self@.contacts),
                Some(e) => result == Err::<(), EncodeError>(e) && final(dst)@ == old(dst)@
                    + self@.bytes_until_error(),
            },
    {
        proof {
            use_type_invariant(self);
        }
        let ghost base = old(dst)@;
        let ghost models = self@.contacts;
        assert(base + Seq::<u8>::empty() =~= base);
        write_2byte_unsigned(dst, self.contacts.len() as u16)?;
        let microseconds: u64 = match self.frame_offset_ms.checked_mul(1000) {
            Some(microseconds) => microseconds,
            None => u64::MAX,
        };
        let ghost count = varint::two_byte_unsigned(models.len());
        write_8byte_unsigned(dst, microseconds)?;
        let ghost head = count + varint::eight_byte_unsigned(self@.frame_offset_us());
        proof {
            lemma_grow(base, count, varint::eight_byte_unsigned(self@.frame_offset_us()));
            lemma_grow(base, head, contacts_bytes(models.take(0)));
        }
        let mut i: usize = 0;
        while i < self.contacts.len()
            invariant
                i <= self.contacts.len(),
                models == contact_models(self.contacts@),
                self@.contacts == models,
                self@.error() == contacts_error(models),
                self@.bytes_until_error() == head + contacts_bytes_until_error(models),
                contacts_error(models.take(i as int)) is None,
                forall|k: int| 0 <= k < i ==> (#[trigger] models[k]).valid(),
                base == old(dst)@,
                dst@ == base + (head + contacts_bytes(models.take(i as int))),
            decreases self.contacts.len() - i,
        {
            proof {
                assert(models.take(i + 1).drop_last() =~= models.take(i as int));
                lemma_first_error_wins(models, i + 1);
                let done = contacts_bytes(models.take(i as int));
                let stopped = models[i as int].bytes_until_error();
                lemma_grow(base, head + done, models[i as int].bytes());
                lemma_grow(base, head + done, stopped);
                lemma_grow(head, done, stopped);
            }
            self.contacts[i].encode_payload(dst)?;
            proof {
                lemma_grow(head, contacts_bytes(models.take(i as int)), models[i as int].bytes());
            }
            i = i + 1;
        }
        assert(models.take(i as int) =~= models);
        Ok(())
    }
}

/// An error among the first `n` contacts is the error of the whole row, and stops it there.
proof fn lemma_first_error_wins(contacts: Seq<ContactModel>, n: int)
    requires
        0 <= n <= contacts.len(),
    ensures
        contacts_error(contacts.take(n)) is Some ==> contacts_error(contacts) == contacts_error(
            contacts.take(n),
        ) && contacts_bytes_until_error(contacts) == contacts_bytes_until_error(contacts.take(n)),
    decreases contacts.len(),
{
    if n == contacts.len() {
        assert(contacts.take(n) =~= contacts);
    } else {
        assert(contacts.drop_last().take(n) =~= contacts.take(n));
        lemma_first_error_wins(contacts.drop_last(), n);
    }
}

/// No contact takes more than 36 bytes.
pub(crate) proof fn lemma_contact_length(c: ContactModel)
    ensures
        c.bytes().len() <= 36,
{
    varint::lemma_lengths(c.fields_present() as u16, c.rect.left, c.contact_flags, c.x, 0);
    varint::lemma_lengths(0, c.rect.top, 0, c.y, 0);
    varint::lemma_lengths(0, c.rect.right, 0, 0, 0);
    varint::lemma_lengths(0, c.rect.bottom, 0, 0, 0);
    if let Some(degrees) = c.orientation {
        varint::lemma_lengths(0, 0, degrees, 0, 0);
    }
    if let Some(pressure) = c.pressure {
        varint::lemma_lengths(0, 0, pressure, 0, 0);
    }
}

proof fn lemma_contacts_length(contacts: Seq<ContactModel>)
    ensures
        contacts_bytes(contacts).len() <= 36 * contacts.len(),
    decreases contacts.len(),
{
    if contacts.len() > 0 {
        lemma_contact_length(contacts.last());
        lemma_contacts_length(contacts.drop_last());
    }
}

/// A frame that can be encoded takes little more than a megabyte at most.
pub(crate) proof fn lemma_frame_length(frame: FrameModel)
    requires
        frame.error() is None,
    ensures
        frame.bytes().len() <= 11 + 36 * 0x7FFF,
{
    varint::lemma_lengths(frame.contacts.len() as u16, 0, 0, 0, frame.frame_offset_us() as u64);
    lemma_contacts_length(frame.contacts);
}

/// Appending twice is appending the concatenation.
proof fn lemma_grow(base: Seq<u8>, done: Seq<u8>, next: Seq<u8>)
    ensures
        (base + done) + next == base + (done + next),
        base + done + Seq::<u8>::empty() == base + done,
{
    assert((base + done) + next =~= base + (done + next));
    assert(base + done + Seq::<u8>::empty() =~= base + done);
}

/// `a - b`, or the `i32` nearest to it.
fn saturating_sub(a: i32, b: i32) -> (difference: i32)
    ensures
        difference == if a - b < i32::MIN {
            i32::MIN as int
        } else if a - b > i32::MAX {
            i32::MAX as int
        } else {
            a - b
        },
{
    match a.checked_sub(b) {
        Some(difference) => difference,
        None => if b > 0 {
            i32::MIN
        } else {
            i32::MAX
        },
    }
}

/// `a + b`, or the `i32` nearest to it.
fn saturating_add(a: i32, b: i32) -> (sum: i32)
    ensures
        sum == if a + b < i32::MIN {
            i32::MIN as int
        } else if a + b > i32::MAX {
            i32::MAX as int
        } else {
            a + b
        },
{
    match a.checked_add(b) {
        Some(sum) => sum,
        None => if b > 0 {
            i32::MAX
        } else {
            i32::MIN
        },
    }
}

/// The `i16` that is nearest to `value`.
pub fn bounded_i16(value: i32) -> (bounded: i16)
    ensures
        bounded == nearest_i16(value as int),
{
    if value < i16::MIN as i32 {
        i16::MIN
    } else if value > i16::MAX as i32 {
        i16::MAX
    } else {
        value as i16
    }
}

} // verus!
