use ironrdp_core::encode_vec;
use ironrdp_rdpei::{
    DecodeError, EncodeError, RdpeiClient, ServerPdu, TouchContact, CHANNEL_NAME,
    CS_READY_FLAGS_DISABLE_TIMESTAMP_INJECTION,
};
use ironrdp_svc::SvcMessage;

const SUSPEND: [u8; 6] = [4, 0, 6, 0, 0, 0];
const RESUME: [u8; 6] = [5, 0, 6, 0, 0, 0];

fn sc_ready(version: u32, features: u32) -> Vec<u8> {
    let mut bytes = vec![1, 0, 14, 0, 0, 0];
    bytes.extend_from_slice(&version.to_le_bytes());
    bytes.extend_from_slice(&features.to_le_bytes());
    bytes
}

fn cs_ready(flags: u8, version: u32, contacts: u16) -> Vec<u8> {
    let mut bytes = vec![2, 0, 16, 0, 0, 0, flags, 0, 0, 0];
    bytes.extend_from_slice(&version.to_le_bytes());
    bytes.extend_from_slice(&contacts.to_le_bytes());
    bytes
}

fn answer(client: &mut RdpeiClient, payload: &[u8]) -> Vec<Vec<u8>> {
    let pdus = client.process(7, payload).unwrap();
    pdus.iter().map(|pdu| encode_vec(pdu).unwrap()).collect()
}

fn unframed(messages: &[SvcMessage]) -> Vec<Vec<u8>> {
    messages.iter().map(|message| message.encode_unframed_pdu().unwrap()).collect()
}

#[test]
fn encodes_touch_begin() {
    let client = RdpeiClient::new();
    let messages = client.encode_touch_begin(7, 1, 320, 640, Some(512)).unwrap();
    assert!(!messages.is_empty());
}

#[test]
fn touch_begin_bytes() {
    let client = RdpeiClient::new();
    let messages = client.encode_touch_begin(7, 1, 320, 640, Some(512)).unwrap();
    assert_eq!(
        unframed(&messages),
        [[
            0x30, 0x07, // data on channel 7
            0x03, 0x00, 0x1B, 0x00, 0x00, 0x00, // header
            0x00, 0x01, 0x01, 0x00, // encode time, counts, frame offset
            0x01, 0x05, // contact, fields present
            0x41, 0x40, 0x42, 0x80, 0x19, // position, flags
            0x81, 0x3E, 0x82, 0x7E, 0x81, 0x42, 0x82, 0x82, // rectangle
            0x42, 0x00, // pressure
        ]]
    );
}

#[test]
fn touch_update_and_cancel_bytes() {
    let client = RdpeiClient::new();
    let messages = client.encode_touch_update(1, 2, 3, 4, None).unwrap();
    assert_eq!(
        unframed(&messages),
        [[
            0x30, 0x01, 0x03, 0x00, 0x13, 0x00, 0x00, 0x00, 0x00, 0x01, 0x01, 0x00, 0x02, 0x01,
            0x03, 0x04, 0x1A, 0x01, 0x02, 0x05, 0x06,
        ]]
    );
    let messages = client.encode_touch_cancel(1, 2, 3, 4, None).unwrap();
    assert_eq!(
        unframed(&messages),
        [[
            0x30, 0x01, 0x03, 0x00, 0x13, 0x00, 0x00, 0x00, 0x00, 0x01, 0x01, 0x00, 0x02, 0x01,
            0x03, 0x04, 0x22, 0x01, 0x02, 0x05, 0x06,
        ]]
    );
}

#[test]
fn touch_end_is_an_update_and_an_up() {
    let client = RdpeiClient::new();
    let update = client.encode_touch_update(1, 2, 3, 4, Some(9)).unwrap();
    let end = unframed(&client.encode_touch_end(1, 2, 3, 4, Some(9)).unwrap());
    assert_eq!(end.len(), 2);
    assert_eq!(end[0], unframed(&update)[0]);
    assert_eq!(
        end[1],
        [
            0x30, 0x01, 0x03, 0x00, 0x14, 0x00, 0x00, 0x00, 0x00, 0x01, 0x01, 0x00, 0x02, 0x05,
            0x03, 0x04, 0x04, 0x01, 0x02, 0x05, 0x06, 0x09,
        ]
    );
}

#[test]
fn touch_frame_carries_time_and_offset() {
    let client = RdpeiClient::new();
    let contacts = [TouchContact::new(1, 1, 2, 2), TouchContact::new(2, 3, 4, 4)];
    let messages = client.encode_touch_frame(0x0102, 5, 1, &contacts).unwrap();
    assert_eq!(
        unframed(&messages),
        [[
            0x31, 0x02, 0x01, 0x03, 0x00, 0x1D, 0x00, 0x00, 0x00, 0x05, 0x01, 0x02, 0x23, 0xE8,
            0x01, 0x01, 0x01, 0x02, 0x02, 0x41, 0x00, 0x03, 0x04, 0x02, 0x01, 0x03, 0x04, 0x04,
            0x01, 0x02, 0x05, 0x06,
        ]]
    );
}

#[test]
fn a_long_frame_is_cut_into_messages() {
    let client = RdpeiClient::new().with_max_touch_contacts(1000);
    let contacts = vec![TouchContact::new(1, 1, 2, 2); 400];
    let messages = client.encode_touch_frame(1, 0, 0, &contacts).unwrap();
    let length = 6 + 5 + 400 * 9;
    assert_eq!(messages.len(), (length + 1589) / 1590);
    let pieces = unframed(&messages);
    let sizes: Vec<usize> = pieces.iter().map(Vec::len).collect();
    // The first piece also announces the length of the whole.
    assert_eq!(sizes, [1590 + 2 + 2, 1590 + 2, length - 2 * 1590 + 2]);
    assert_eq!(&pieces[0][4..8], &[0x03, 0x00, 0x1B, 0x0E]);
}

#[test]
fn the_number_of_contacts_is_limited() {
    let contact = TouchContact::new(1, 0, 0, 2);
    let client = RdpeiClient::new();
    assert!(client.encode_touch_frame(1, 0, 0, &vec![contact.clone(); 64]).is_ok());
    assert_eq!(
        client.encode_touch_frame(1, 0, 0, &vec![contact.clone(); 65]).unwrap_err(),
        EncodeError::TooManyActiveContacts
    );
    assert_eq!(
        client.encode_touch_frame(1, 0, 0, &[]).unwrap_err(),
        EncodeError::NoContacts
    );

    let none = RdpeiClient::new().with_max_touch_contacts(0);
    assert_eq!(
        none.encode_touch_frame(1, 0, 0, &[contact]).unwrap_err(),
        EncodeError::TooManyActiveContacts
    );
    for result in [
        none.encode_touch_begin(1, 1, 0, 0, None),
        none.encode_touch_update(1, 1, 0, 0, None),
        none.encode_touch_cancel(1, 1, 0, 0, None),
    ] {
        assert_eq!(result.unwrap_err(), EncodeError::TooManyActiveContacts);
    }
    assert_eq!(none.encode_touch_end(1, 1, 0, 0, None).unwrap().len(), 2);
}

#[test]
fn gestures_check_the_pressure_first() {
    let none = RdpeiClient::new().with_max_touch_contacts(0);
    for result in [
        none.encode_touch_begin(1, 1, i32::MIN, 0, Some(1025)),
        none.encode_touch_update(1, 1, i32::MIN, 0, Some(1025)),
        none.encode_touch_end(1, 1, i32::MIN, 0, Some(1025)),
        none.encode_touch_cancel(1, 1, i32::MIN, 0, Some(1025)),
    ] {
        assert_eq!(result.unwrap_err(), EncodeError::PressureOutOfRange);
    }
}

#[test]
fn gestures_refuse_positions_far_out() {
    let client = RdpeiClient::new();
    for x in [-16381, 16381] {
        assert!(client.encode_touch_begin(1, 1, x, 0, Some(1024)).is_ok());
        assert!(client.encode_touch_end(1, 1, x, 0, Some(1024)).is_ok());
    }
    for result in [
        client.encode_touch_begin(1, 1, 16382, 0, None),
        client.encode_touch_update(1, 1, -16382, 0, None),
        client.encode_touch_end(1, 1, 0, 16382, None),
        client.encode_touch_cancel(1, 1, 0, -16382, None),
    ] {
        assert_eq!(result.unwrap_err(), EncodeError::TwoByteSignedOutOfRange);
    }
    assert_eq!(
        client.encode_touch_end(1, 1, i32::MAX, 0, None).unwrap_err(),
        EncodeError::FourByteSignedOutOfRange
    );
}

#[test]
fn a_frame_of_a_late_time_is_refused() {
    let client = RdpeiClient::new();
    let contact = TouchContact::new(1, 0, 0, 2);
    assert_eq!(
        client.encode_touch_frame(1, 0x4000_0000, 0, &[contact.clone()]).unwrap_err(),
        EncodeError::FourByteUnsignedOutOfRange
    );
    assert_eq!(
        client.encode_touch_frame(1, 0, u64::MAX, &[contact]).unwrap_err(),
        EncodeError::EightByteUnsignedOutOfRange
    );
}

#[test]
fn touch_events_do_not_wait_for_the_server() {
    let mut client = RdpeiClient::new();
    assert!(client.encode_touch_begin(1, 1, 0, 0, None).is_ok());
    client.process(1, &SUSPEND).unwrap();
    assert!(client.encode_touch_begin(1, 1, 0, 0, None).is_ok());
}

#[test]
fn a_new_client_waits() {
    for client in [RdpeiClient::new(), RdpeiClient::default()] {
        assert!(!client.is_ready());
        assert!(!client.is_suspended());
        assert_eq!(client.server_version(), None);
        assert_eq!(client.server_features(), 0);
    }
    let mut client = RdpeiClient::new();
    assert_eq!(client.channel_name(), CHANNEL_NAME);
    assert_eq!(CHANNEL_NAME, "Microsoft::Windows::RDS::Input");
    assert!(client.start(7).is_empty());
    assert!(!client.is_ready());
}

#[test]
fn sc_ready_makes_ready_and_is_answered() {
    let mut client = RdpeiClient::new();
    let answers = answer(&mut client, &sc_ready(0x0003_0000, 1));
    assert_eq!(answers, [cs_ready(2, 0x0003_0000, 64)]);
    assert!(client.is_ready());
    assert_eq!(client.server_version(), Some(0x0003_0000));
    assert_eq!(client.server_features(), 1);
}

#[test]
fn flags_follow_version_features_and_mask() {
    for (version, features, mask, flags) in [
        (0x0001_0000, 1, u32::MAX, 1),
        (0x0001_0001, 1, u32::MAX, 3),
        (0x0002_0000, 1, u32::MAX, 3),
        (0x0003_0000, 0, u32::MAX, 3),
        (0x0003_0000, 1, u32::MAX, 7),
        (0x0003_0000, 2, u32::MAX, 3),
        (0x0003_0000, 3, 4, 4),
        (0x0003_0000, 1, 0, 0),
        (0x0001_0000, 1, CS_READY_FLAGS_DISABLE_TIMESTAMP_INJECTION, 0),
    ] {
        let mut client = RdpeiClient::new()
            .with_client_features_mask(mask)
            .with_max_touch_contacts(10);
        assert_eq!(
            answer(&mut client, &sc_ready(version, features)),
            [cs_ready(flags, version, 10)]
        );
    }
}

#[test]
fn suspend_and_resume() {
    let mut client = RdpeiClient::new();
    assert!(answer(&mut client, &SUSPEND).is_empty());
    assert!(client.is_suspended());
    assert!(answer(&mut client, &RESUME).is_empty());
    assert!(!client.is_suspended());
    assert!(!client.is_ready());
    answer(&mut client, &sc_ready(0x0002_0000, 0));
    assert!(answer(&mut client, &SUSPEND).is_empty());
    assert!(client.is_suspended());
    assert!(!client.is_ready());
    assert_eq!(client.server_version(), Some(0x0002_0000));
    assert!(answer(&mut client, &RESUME).is_empty());
    assert!(!client.is_suspended());
    assert!(client.is_ready());
}

#[test]
fn sc_ready_ends_a_suspension() {
    let mut client = RdpeiClient::new();
    answer(&mut client, &SUSPEND);
    assert!(client.is_suspended());
    answer(&mut client, &sc_ready(0x0001_0001, 0));
    assert!(client.is_ready());
    answer(&mut client, &sc_ready(0x0003_0000, 1));
    assert_eq!(client.server_version(), Some(0x0003_0000));
    answer(&mut client, &sc_ready(0x0002_0000, 1));
    assert_eq!(client.server_version(), Some(0x0002_0000));
    assert_eq!(client.server_features(), 0);
}

#[test]
fn features_and_version_are_those_last_heard() {
    let mut client = RdpeiClient::new();
    for (version, features, kept) in [
        (0x0003_0000, 3, 3),
        (0x0002_0000, 3, 0),
        (0x0003_0001, 5, 5),
        (0x0001_0000, 0, 0),
    ] {
        answer(&mut client, &sc_ready(version, features));
        answer(&mut client, &SUSPEND);
        answer(&mut client, &[9, 0, 6, 0, 0, 0]);
        assert!(client.process(7, &[1, 0, 6, 0, 0, 0]).is_err());
        assert_eq!(client.server_version(), Some(version));
        assert_eq!(client.server_features(), kept);
    }
}

#[test]
fn handling_a_pdu_is_processing_its_payload() {
    let mut by_payload = RdpeiClient::new();
    let mut by_pdu = RdpeiClient::new();
    let answers = by_payload.process(7, &sc_ready(0x0003_0000, 1)).unwrap();
    let same = by_pdu.handle(ServerPdu::ScReady { protocol_version: 0x0003_0000, features: 1 });
    assert_eq!(encode_vec(&answers[0]).unwrap(), encode_vec(&same[0]).unwrap());
    assert_eq!((answers.len(), same.len()), (1, 1));
    assert!(by_pdu.is_ready());
    assert!(by_pdu.handle(ServerPdu::SuspendTouch).is_empty());
    assert!(by_pdu.is_suspended());
}

#[test]
fn what_is_unknown_or_unreadable_changes_nothing() {
    let mut client = RdpeiClient::new();
    answer(&mut client, &sc_ready(0x0003_0000, 1));
    answer(&mut client, &SUSPEND);
    assert!(answer(&mut client, &[9, 0, 6, 0, 0, 0]).is_empty());
    assert_eq!(client.process(7, &[1, 0]).unwrap_err(), DecodeError::HeaderTooShort);
    assert_eq!(
        client.process(7, &[1, 0, 5, 0, 0, 0]).unwrap_err(),
        DecodeError::PduLengthTooShort
    );
    assert_eq!(
        client.process(7, &[1, 0, 6, 0, 0, 0]).unwrap_err(),
        DecodeError::ScReadyTooShort
    );
    assert!(client.is_suspended());
    assert_eq!(client.server_version(), Some(0x0003_0000));
    assert_eq!(client.server_features(), 1);
}

#[test]
fn settings_outlast_what_the_server_says() {
    let mut client = RdpeiClient::new()
        .with_max_touch_contacts(9)
        .with_client_features_mask(5);
    for payload in [&sc_ready(0x0001_0000, 0)[..], &SUSPEND, &[9, 0, 6, 0, 0, 0], &RESUME] {
        client.process(7, payload).unwrap();
    }
    assert_eq!(
        answer(&mut client, &sc_ready(0x0003_0000, 1)),
        [cs_ready(5, 0x0003_0000, 9)]
    );
}

#[test]
fn only_the_start_of_a_payload_is_read() {
    let mut long = sc_ready(0x0003_0000, 1);
    long.extend_from_slice(&[0xFF; 40]);
    let mut client = RdpeiClient::new();
    assert_eq!(answer(&mut client, &long), [cs_ready(2, 0x0003_0000, 64)]);
    assert_eq!(client.server_features(), 1);
}

#[test]
fn a_clone_goes_its_own_way() {
    let mut client = RdpeiClient::new().with_max_touch_contacts(3);
    let copy = client.clone();
    answer(&mut client, &sc_ready(0x0003_0000, 0));
    assert!(client.is_ready());
    assert!(!copy.is_ready());
    let contacts = vec![TouchContact::new(1, 0, 0, 2); 4];
    assert!(copy.encode_touch_frame(1, 0, 0, &contacts).is_err());
}
