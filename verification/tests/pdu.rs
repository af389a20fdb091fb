use ironrdp_core::{decode, encode_vec, Encode, EncodeErrorKind, ReadCursor, WriteCursor};
use ironrdp_rdpei::constants::EVENTID_CS_READY;
use ironrdp_rdpei::{
    DecodeError, RdpeiClientPdu, ServerPdu, CS_READY_FLAGS_DISABLE_TIMESTAMP_INJECTION,
    RDPINPUT_PROTOCOL_V300,
};

#[test]
fn encodes_cs_ready() {
    let pdu = RdpeiClientPdu::cs_ready(
        CS_READY_FLAGS_DISABLE_TIMESTAMP_INJECTION,
        RDPINPUT_PROTOCOL_V300,
        10,
    );

    let bytes = encode_vec(&pdu).unwrap();
    assert_eq!(&bytes[0..2], &EVENTID_CS_READY.to_le_bytes());
    assert_eq!(u32::from_le_bytes(bytes[2..6].try_into().unwrap()), 16);
    assert_eq!(
        u32::from_le_bytes(bytes[6..10].try_into().unwrap()),
        CS_READY_FLAGS_DISABLE_TIMESTAMP_INJECTION
    );
    assert_eq!(u16::from_le_bytes(bytes[14..16].try_into().unwrap()), 10);
}

#[test]
fn cs_ready_bytes() {
    let pdu = RdpeiClientPdu::cs_ready(0x0102_0304, 0x1122_3344, 0xABCD);
    assert_eq!(pdu.size(), 16);
    assert_eq!(pdu.name(), "RDPEI_CLIENT_PDU");
    let expected = [
        0x02, 0x00, 0x10, 0x00, 0x00, 0x00, 0x04, 0x03, 0x02, 0x01, 0x44, 0x33, 0x22, 0x11, 0xCD,
        0xAB,
    ];
    assert_eq!(encode_vec(&pdu).unwrap(), expected);
    assert_eq!(encode_vec(&pdu.clone()).unwrap(), expected);
}

#[test]
fn encoding_starts_at_the_position_and_leaves_the_rest() {
    let pdu = RdpeiClientPdu::cs_ready(1, 2, 3);
    let mut buffer = [0xEEu8; 20];
    let mut cursor = WriteCursor::new(&mut buffer);
    cursor.advance(2);
    pdu.encode(&mut cursor).unwrap();
    assert_eq!(cursor.pos(), 18);
    assert_eq!(
        buffer,
        [
            0xEE, 0xEE, 0x02, 0x00, 0x10, 0x00, 0x00, 0x00, 0x01, 0x00, 0x00, 0x00, 0x02, 0x00,
            0x00, 0x00, 0x03, 0x00, 0xEE, 0xEE,
        ]
    );
}

#[test]
fn encoding_without_room_writes_nothing() {
    let pdu = RdpeiClientPdu::cs_ready(1, 2, 3);
    for (room, wanted) in [(0, 6), (5, 6), (6, 16), (15, 16)] {
        let mut buffer = vec![0xEEu8; room + 3];
        let mut cursor = WriteCursor::new(&mut buffer);
        cursor.advance(3);
        let error = pdu.encode(&mut cursor).unwrap_err();
        assert_eq!(cursor.pos(), 3);
        assert_eq!(
            format!("{error}"),
            format!(
                "[<ironrdp_rdpei::RdpeiClientPdu as ironrdp_core::encode::Encode>::encode] \
                 not enough bytes provided to encode at offset 3: \
                 received {room} bytes, expected {wanted} bytes"
            )
        );
        match error.kind() {
            EncodeErrorKind::NotEnoughBytes { received, expected, offset } => {
                assert_eq!((*received, *expected, *offset), (room, wanted, Some(3)));
            }
            other => panic!("unexpected error: {other:?}"),
        }
        assert_eq!(buffer, vec![0xEE; room + 3]);
    }
}

#[test]
fn a_cursor_past_its_end_has_no_room() {
    let pdu = RdpeiClientPdu::cs_ready(1, 2, 3);
    let mut buffer = [0u8; 4];
    let mut cursor = WriteCursor::new(&mut buffer);
    cursor.advance(9);
    assert!(pdu.encode(&mut cursor).is_err());
}

fn read(bytes: &[u8]) -> (Result<ServerPdu, DecodeError>, usize) {
    let mut src = ReadCursor::new(bytes);
    let result = ServerPdu::from_cursor(&mut src);
    (result, src.pos())
}

#[test]
fn reads_sc_ready_with_features() {
    let bytes = [1, 0, 14, 0, 0, 0, 0x00, 0x00, 0x03, 0x00, 0x01, 0x00, 0x00, 0x80, 0xFF];
    assert_eq!(
        read(&bytes),
        (Ok(ServerPdu::ScReady { protocol_version: 0x0003_0000, features: 0x8000_0001 }), 14)
    );
}

#[test]
fn reads_sc_ready_without_features() {
    let new = [1, 0, 10, 0, 0, 0, 0x00, 0x00, 0x03, 0x00, 0x01, 0x00, 0x00];
    assert_eq!(
        read(&new),
        (Ok(ServerPdu::ScReady { protocol_version: 0x0003_0000, features: 0 }), 10)
    );
    let old = [1, 0, 14, 0, 0, 0, 0xFF, 0xFF, 0x02, 0x00, 0x01, 0x00, 0x00, 0x00];
    assert_eq!(
        read(&old),
        (Ok(ServerPdu::ScReady { protocol_version: 0x0002_FFFF, features: 0 }), 10)
    );
}

#[test]
fn reads_suspend_and_resume() {
    assert_eq!(read(&[4, 0, 6, 0, 0, 0]), (Ok(ServerPdu::SuspendTouch), 6));
    assert_eq!(read(&[5, 0, 6, 0, 0, 0, 9, 9]), (Ok(ServerPdu::ResumeTouch), 6));
    assert_eq!(read(&[4, 0, 0xFF, 0xFF, 0xFF, 0xFF]), (Ok(ServerPdu::SuspendTouch), 6));
}

#[test]
fn reads_unknown_events() {
    for (bytes, event_id) in [([2, 0], 2u16), ([3, 0], 3), ([6, 0], 6), ([1, 1], 0x0101)] {
        let bytes = [bytes[0], bytes[1], 0x07, 0x01, 0, 0];
        assert_eq!(read(&bytes), (Ok(ServerPdu::Unknown { event_id, pdu_length: 0x0107 }), 6));
    }
}

#[test]
fn refuses_a_short_header() {
    assert_eq!(read(&[]), (Err(DecodeError::HeaderTooShort), 0));
    assert_eq!(read(&[4, 0, 6, 0, 0]), (Err(DecodeError::HeaderTooShort), 0));
}

#[test]
fn refuses_a_length_below_the_header() {
    assert_eq!(read(&[4, 0, 5, 0, 0, 0]), (Err(DecodeError::PduLengthTooShort), 6));
    assert_eq!(read(&[1, 0, 0, 0, 0, 0, 1, 2, 3, 4]), (Err(DecodeError::PduLengthTooShort), 6));
}

#[test]
fn refuses_a_short_sc_ready() {
    assert_eq!(read(&[1, 0, 10, 0, 0, 0, 0, 0, 3]), (Err(DecodeError::ScReadyTooShort), 6));
}

#[test]
fn decodes_through_the_trait() {
    assert_eq!(decode::<ServerPdu>(&[5, 0, 6, 0, 0, 0]).unwrap(), ServerPdu::ResumeTouch);
    let error = decode::<ServerPdu>(&[5]).unwrap_err();
    let text = format!("{error}");
    assert_eq!(text, format!("{}", DecodeError::HeaderTooShort.to_core()));
    assert!(text.starts_with(
        "[<ironrdp_rdpei::ServerPdu as ironrdp_core::decode::Decode<'_>>::decode] "
    ));
    assert!(text.contains("RDPEI_HEADER"));
    assert!(text.contains("not enough bytes for RDPEI header"));
}

#[test]
fn decode_errors_name_field_and_reason() {
    assert_eq!(
        DecodeError::HeaderTooShort.context(),
        "<ironrdp_rdpei::ServerPdu as ironrdp_core::decode::Decode<'_>>::decode"
    );
    assert_eq!(DecodeError::HeaderTooShort.field(), "RDPEI_HEADER");
    assert_eq!(DecodeError::HeaderTooShort.reason(), "not enough bytes for RDPEI header");
    assert_eq!(DecodeError::PduLengthTooShort.field(), "pduLength");
    assert_eq!(
        DecodeError::PduLengthTooShort.reason(),
        "RDPEI PDU length is shorter than its header"
    );
    assert_eq!(DecodeError::ScReadyTooShort.field(), "SC_READY");
    assert_eq!(DecodeError::ScReadyTooShort.reason(), "not enough bytes for SC_READY");
}
