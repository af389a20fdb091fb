use ironrdp_core::{encode_vec, EncodeErrorKind};
use ironrdp_rdpei::touch::bounded_i16;
use ironrdp_rdpei::{EncodeError, RdpeiClientPdu, TouchContact, TouchFrame};

fn payload(encode_time_ms: u32, frame: TouchFrame) -> Vec<u8> {
    let pdu = RdpeiClientPdu::touch(encode_time_ms, frame).unwrap();
    encode_vec(&pdu).unwrap()[6..].to_vec()
}

fn one(contact: TouchContact) -> TouchFrame {
    TouchFrame::new(0, vec![contact]).unwrap()
}

#[test]
fn bounds_to_i16() {
    assert_eq!(bounded_i16(0), 0);
    assert_eq!(bounded_i16(-5), -5);
    assert_eq!(bounded_i16(32767), i16::MAX);
    assert_eq!(bounded_i16(32768), i16::MAX);
    assert_eq!(bounded_i16(-32768), i16::MIN);
    assert_eq!(bounded_i16(-32769), i16::MIN);
    assert_eq!(bounded_i16(i32::MAX), i16::MAX);
    assert_eq!(bounded_i16(i32::MIN), i16::MIN);
}

#[test]
fn contact_with_rectangle_only() {
    let contact = TouchContact::new(3, 10, -10, 0x19);
    assert_eq!(
        payload(0, one(contact)),
        [
            0x00, 0x01, // encode time, frame count
            0x01, 0x00, // contact count, frame offset
            0x03, 0x01, // contact, fields present
            0x0A, 0x2A, 0x19, // position, flags
            0x08, 0x4C, 0x0C, 0x48, // rectangle
        ]
    );
}

#[test]
fn contact_with_everything() {
    let contact = TouchContact::new(255, 0, 0, 2)
        .with_pressure(1024)
        .unwrap()
        .with_orientation(359)
        .unwrap();
    assert_eq!(
        payload(0, one(contact)),
        [
            0x00, 0x01, 0x01, 0x00, 0xFF, 0x07, 0x00, 0x00, 0x02, 0x42, 0x42, 0x02, 0x02, 0x41,
            0x67, 0x44, 0x00,
        ]
    );
}

#[test]
fn orientation_without_pressure() {
    let contact = TouchContact::new(1, 0, 0, 2).with_orientation(90).unwrap();
    assert_eq!(
        payload(0, one(contact)),
        [0x00, 0x01, 0x01, 0x00, 0x01, 0x03, 0x00, 0x00, 0x02, 0x42, 0x42, 0x02, 0x02, 0x40, 0x5A]
    );
}

#[test]
fn orientation_is_limited() {
    let contact = TouchContact::new(1, 0, 0, 2);
    assert_eq!(contact.clone().with_orientation(360), Err(EncodeError::OrientationOutOfRange));
    assert_eq!(contact.clone().with_orientation(u32::MAX), Err(EncodeError::OrientationOutOfRange));
    assert!(contact.with_orientation(359).is_ok());
}

#[test]
fn pressure_is_limited() {
    let contact = TouchContact::new(1, 0, 0, 2);
    assert_eq!(contact.clone().with_pressure(1025), Err(EncodeError::PressureOutOfRange));
    assert_eq!(contact.clone().with_pressure_opt(Some(1025)), Err(EncodeError::PressureOutOfRange));
    assert_eq!(contact.clone().with_pressure_opt(None), Ok(contact.clone()));
    assert_eq!(contact.clone().with_pressure_opt(Some(7)), contact.with_pressure(7));
}

#[test]
fn a_clone_is_equal() {
    let contact = TouchContact::new(1, 5, 6, 2).with_orientation(45).unwrap();
    assert_eq!(contact.clone(), contact);
    assert_ne!(contact, TouchContact::new(1, 5, 6, 2));
    let frame = TouchFrame::new(3, vec![contact]).unwrap();
    assert_eq!(frame.clone(), frame);
}

#[test]
fn a_frame_needs_a_contact() {
    assert_eq!(TouchFrame::new(0, Vec::new()), Err(EncodeError::NoContacts));
}

#[test]
fn a_frame_holds_at_most_65535_contacts() {
    let contacts = vec![TouchContact::new(1, 0, 0, 2); 65536];
    assert_eq!(TouchFrame::new(0, contacts.clone()), Err(EncodeError::TooManyContacts));
    assert!(TouchFrame::new(0, contacts[..65535].to_vec()).is_ok());
}

#[test]
fn a_frame_of_too_many_contacts_is_not_encoded() {
    let contacts = vec![TouchContact::new(1, 0, 0, 2); 0x8000];
    let frame = TouchFrame::new(0, contacts.clone()).unwrap();
    assert_eq!(
        RdpeiClientPdu::touch(0, frame).unwrap_err(),
        EncodeError::TwoByteUnsignedOutOfRange
    );
    let frame = TouchFrame::new(0, contacts[1..].to_vec()).unwrap();
    let bytes = payload(0, frame);
    assert_eq!(&bytes[..5], &[0x00, 0x01, 0xFF, 0xFF, 0x00]);
    assert_eq!(bytes.len(), 5 + 0x7FFF * 9);
}

#[test]
fn the_frame_offset_goes_out_in_microseconds() {
    let contact = TouchContact::new(1, 0, 0, 2);
    let frame = TouchFrame::new(1, vec![contact.clone()]).unwrap();
    assert_eq!(&payload(0, frame)[..5], &[0x00, 0x01, 0x01, 0x23, 0xE8]);

    let limit = 0x01FF_FFFF_FFFF_FFFF / 1000;
    assert!(RdpeiClientPdu::touch(0, TouchFrame::new(limit, vec![contact.clone()]).unwrap()).is_ok());
    for offset in [limit + 1, u64::MAX / 1000 + 1, u64::MAX] {
        let frame = TouchFrame::new(offset, vec![contact.clone()]).unwrap();
        assert_eq!(
            RdpeiClientPdu::touch(0, frame).unwrap_err(),
            EncodeError::EightByteUnsignedOutOfRange
        );
    }
}

#[test]
fn the_encode_time_is_limited() {
    let frame = one(TouchContact::new(1, 0, 0, 2));
    assert_eq!(&payload(0x3FFF_FFFF, frame.clone())[..5], &[0xFF, 0xFF, 0xFF, 0xFF, 0x01]);
    assert_eq!(
        RdpeiClientPdu::touch(0x4000_0000, frame).unwrap_err(),
        EncodeError::FourByteUnsignedOutOfRange
    );
}

#[test]
fn positions_are_limited() {
    for (x, y) in [(16381, 0), (-16381, 0), (0, 16381), (0, -16381)] {
        assert!(RdpeiClientPdu::touch(0, one(TouchContact::new(1, x, y, 2))).is_ok());
    }
    for (x, y) in [(16382, 0), (-16382, 0), (0, 16382), (0, -16382), (0x1FFF_FFFF, 0)] {
        assert_eq!(
            RdpeiClientPdu::touch(0, one(TouchContact::new(1, x, y, 2))).unwrap_err(),
            EncodeError::TwoByteSignedOutOfRange
        );
    }
    for (x, y) in [(0x2000_0000, 0), (i32::MIN, 0), (0, i32::MAX)] {
        assert_eq!(
            RdpeiClientPdu::touch(0, one(TouchContact::new(1, x, y, 2))).unwrap_err(),
            EncodeError::FourByteSignedOutOfRange
        );
    }
}

#[test]
fn the_first_misfit_decides() {
    let frame = one(TouchContact::new(1, 20000, 0, 0x4000_0000));
    assert_eq!(
        RdpeiClientPdu::touch(0, frame).unwrap_err(),
        EncodeError::FourByteUnsignedOutOfRange
    );
    let contacts = vec![
        TouchContact::new(1, 0, 0, 2),
        TouchContact::new(2, 20000, 0, 2),
        TouchContact::new(3, i32::MIN, 0, 2),
    ];
    assert_eq!(
        RdpeiClientPdu::touch(0, TouchFrame::new(0, contacts).unwrap()).unwrap_err(),
        EncodeError::TwoByteSignedOutOfRange
    );
}

#[test]
fn contacts_go_out_in_order() {
    let contacts = vec![TouchContact::new(1, 1, 2, 2), TouchContact::new(2, 3, 4, 4)];
    assert_eq!(
        payload(5, TouchFrame::new(0, contacts).unwrap()),
        [
            0x05, 0x01, 0x02, 0x00, // encode time, counts, frame offset
            0x01, 0x01, 0x01, 0x02, 0x02, 0x41, 0x00, 0x03, 0x04, // first contact
            0x02, 0x01, 0x03, 0x04, 0x04, 0x01, 0x02, 0x05, 0x06, // second contact
        ]
    );
}

#[test]
fn different_contacts_are_different_bytes() {
    let base = payload(0, one(TouchContact::new(1, 5, 6, 2)));
    assert_ne!(base, payload(1, one(TouchContact::new(1, 5, 6, 2))));
    assert_ne!(base, payload(0, one(TouchContact::new(1, 6, 5, 2))));
    assert_ne!(base, payload(0, one(TouchContact::new(1, 5, 6, 3))));
    assert_ne!(base, payload(0, one(TouchContact::new(1, 5, 6, 2).with_pressure(0).unwrap())));
    assert_ne!(base, payload(0, one(TouchContact::new(1, 5, 6, 2).with_orientation(0).unwrap())));
}

#[test]
fn encode_errors_name_field_and_reason() {
    assert_eq!(EncodeError::NoContacts.field(), "contactCount");
    assert_eq!(EncodeError::NoContacts.reason(), "touch frames must include at least one contact");
    assert_eq!(EncodeError::TooManyContacts.field(), "contactCount");
    assert_eq!(EncodeError::TooManyContacts.reason(), "too many touch contacts");
    assert_eq!(EncodeError::TooManyActiveContacts.field(), "contactCount");
    assert_eq!(EncodeError::TooManyActiveContacts.reason(), "too many active touch contacts");
    assert_eq!(EncodeError::OrientationOutOfRange.field(), "orientation");
    assert_eq!(
        EncodeError::OrientationOutOfRange.reason(),
        "touch orientation must be in the range 0..360"
    );
    assert_eq!(EncodeError::PressureOutOfRange.field(), "pressure");
    assert_eq!(
        EncodeError::PressureOutOfRange.reason(),
        "touch pressure must be in the range 0..=1024"
    );
    assert_eq!(EncodeError::TwoByteUnsignedOutOfRange.field(), "TWO_BYTE_UNSIGNED_INTEGER");
    assert_eq!(EncodeError::TwoByteSignedOutOfRange.field(), "TWO_BYTE_SIGNED_INTEGER");
    assert_eq!(EncodeError::FourByteUnsignedOutOfRange.field(), "FOUR_BYTE_UNSIGNED_INTEGER");
    assert_eq!(EncodeError::FourByteSignedOutOfRange.field(), "FOUR_BYTE_SIGNED_INTEGER");
    assert_eq!(EncodeError::EightByteUnsignedOutOfRange.field(), "EIGHT_BYTE_UNSIGNED_INTEGER");
    assert_eq!(EncodeError::EightByteUnsignedOutOfRange.reason(), "value is out of range");
}

#[test]
fn encode_errors_name_their_origin() {
    assert_eq!(EncodeError::NoContacts.context(), "ironrdp_rdpei::TouchFrame::new");
    assert_eq!(EncodeError::TooManyContacts.context(), "ironrdp_rdpei::TouchFrame::new");
    assert_eq!(EncodeError::TooManyActiveContacts.context(), "ironrdp_rdpei::validate_contact_count");
    assert_eq!(EncodeError::OrientationOutOfRange.context(), "ironrdp_rdpei::TouchContact::with_orientation");
    assert_eq!(EncodeError::PressureOutOfRange.context(), "ironrdp_rdpei::TouchContact::with_pressure");
    assert_eq!(EncodeError::TwoByteUnsignedOutOfRange.context(), "ironrdp_rdpei::write_2byte_unsigned");
    assert_eq!(EncodeError::TwoByteSignedOutOfRange.context(), "ironrdp_rdpei::write_2byte_signed");
    assert_eq!(EncodeError::FourByteUnsignedOutOfRange.context(), "ironrdp_rdpei::write_4byte_unsigned");
    assert_eq!(EncodeError::FourByteSignedOutOfRange.context(), "ironrdp_rdpei::write_4byte_signed");
    assert_eq!(EncodeError::EightByteUnsignedOutOfRange.context(), "ironrdp_rdpei::write_8byte_unsigned");
}

#[test]
fn encode_errors_become_errors_of_the_core() {
    let error = EncodeError::PressureOutOfRange.to_core();
    match error.kind() {
        EncodeErrorKind::InvalidField { field, reason, .. } => {
            assert_eq!(*field, "pressure");
            assert_eq!(*reason, "touch pressure must be in the range 0..=1024");
        }
        other => panic!("unexpected error: {other:?}"),
    }
    assert!(format!("{error}").starts_with("[ironrdp_rdpei::TouchContact::with_pressure] "));
}

#[test]
fn a_whole_event_fits_up_to_its_limits() {
    let contacts = vec![TouchContact::new(1, 16381, -16381, 0x3FFF_FFFF); 0x7FFF];
    let frame = TouchFrame::new(144_115_188_075_855, contacts).unwrap();
    assert!(RdpeiClientPdu::touch(0x3FFF_FFFF, frame.clone()).is_ok());
    assert!(RdpeiClientPdu::touch(0x4000_0000, frame).is_err());
    let late = TouchFrame::new(144_115_188_075_856, vec![TouchContact::new(1, 0, 0, 2)]).unwrap();
    assert!(RdpeiClientPdu::touch(0, late).is_err());
    for contact in [
        TouchContact::new(1, 16382, 0, 2),
        TouchContact::new(1, 0, -16382, 2),
        TouchContact::new(1, 0, 0, 0x4000_0000),
    ] {
        let contacts = vec![TouchContact::new(1, 0, 0, 2), contact];
        assert!(RdpeiClientPdu::touch(0, TouchFrame::new(0, contacts).unwrap()).is_err());
    }
}
