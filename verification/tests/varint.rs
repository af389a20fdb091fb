use ironrdp_rdpei::varint::{
    write_2byte_signed, write_2byte_unsigned, write_4byte_signed, write_4byte_unsigned,
    write_8byte_unsigned,
};
use ironrdp_rdpei::EncodeError;

fn two_unsigned(value: u16) -> Vec<u8> {
    let mut dst = Vec::new();
    write_2byte_unsigned(&mut dst, value).unwrap();
    dst
}

fn two_signed(value: i16) -> Vec<u8> {
    let mut dst = Vec::new();
    write_2byte_signed(&mut dst, value).unwrap();
    dst
}

fn four_unsigned(value: u32) -> Vec<u8> {
    let mut dst = Vec::new();
    write_4byte_unsigned(&mut dst, value).unwrap();
    dst
}

fn four_signed(value: i32) -> Vec<u8> {
    let mut dst = Vec::new();
    write_4byte_signed(&mut dst, value).unwrap();
    dst
}

fn eight_unsigned(value: u64) -> Vec<u8> {
    let mut dst = Vec::new();
    write_8byte_unsigned(&mut dst, value).unwrap();
    dst
}

/// The value of big-endian bytes behind a first byte that holds `high`.
fn join(high: u64, bytes: &[u8]) -> u64 {
    bytes.iter().fold(high, |acc, byte| acc * 256 + u64::from(*byte))
}

#[test]
fn two_byte_unsigned_forms() {
    assert_eq!(two_unsigned(0), [0x00]);
    assert_eq!(two_unsigned(1), [0x01]);
    assert_eq!(two_unsigned(0x7E), [0x7E]);
    assert_eq!(two_unsigned(0x7F), [0x80, 0x7F]);
    assert_eq!(two_unsigned(0x80), [0x80, 0x80]);
    assert_eq!(two_unsigned(0x1234), [0x92, 0x34]);
    assert_eq!(two_unsigned(0x7FFF), [0xFF, 0xFF]);
}

#[test]
fn two_byte_unsigned_refuses_the_top_bit() {
    let mut dst = vec![0xAA];
    assert_eq!(write_2byte_unsigned(&mut dst, 0x8000), Err(EncodeError::TwoByteUnsignedOutOfRange));
    assert_eq!(dst, [0xAA]);
}

#[test]
fn two_byte_signed_forms() {
    assert_eq!(two_signed(0), [0x00]);
    assert_eq!(two_signed(0x3E), [0x3E]);
    assert_eq!(two_signed(0x3F), [0x80, 0x3F]);
    assert_eq!(two_signed(-1), [0x41]);
    assert_eq!(two_signed(-0x3E), [0x7E]);
    assert_eq!(two_signed(-0x3F), [0xC0, 0x3F]);
    assert_eq!(two_signed(0x1234), [0x92, 0x34]);
    assert_eq!(two_signed(-0x1234), [0xD2, 0x34]);
    assert_eq!(two_signed(0x3FFF), [0xBF, 0xFF]);
    assert_eq!(two_signed(-0x3FFF), [0xFF, 0xFF]);
}

#[test]
fn two_byte_signed_refuses_large_magnitudes() {
    for value in [0x4000, -0x4000, i16::MAX, i16::MIN] {
        let mut dst = Vec::new();
        assert_eq!(write_2byte_signed(&mut dst, value), Err(EncodeError::TwoByteSignedOutOfRange));
        assert!(dst.is_empty());
    }
}

#[test]
fn four_byte_unsigned_forms() {
    assert_eq!(four_unsigned(0), [0x00]);
    assert_eq!(four_unsigned(0x3F), [0x3F]);
    assert_eq!(four_unsigned(0x40), [0x40, 0x40]);
    assert_eq!(four_unsigned(0x3FFF), [0x7F, 0xFF]);
    assert_eq!(four_unsigned(0x4000), [0x80, 0x40, 0x00]);
    assert_eq!(four_unsigned(0x3F_FFFF), [0xBF, 0xFF, 0xFF]);
    assert_eq!(four_unsigned(0x40_0000), [0xC0, 0x40, 0x00, 0x00]);
    assert_eq!(four_unsigned(0x1234_5678), [0xD2, 0x34, 0x56, 0x78]);
    assert_eq!(four_unsigned(0x3FFF_FFFF), [0xFF, 0xFF, 0xFF, 0xFF]);
}

#[test]
fn four_byte_unsigned_refuses_more_than_thirty_bits() {
    for value in [0x4000_0000, u32::MAX] {
        let mut dst = vec![1, 2];
        assert_eq!(
            write_4byte_unsigned(&mut dst, value),
            Err(EncodeError::FourByteUnsignedOutOfRange)
        );
        assert_eq!(dst, [1, 2]);
    }
}

#[test]
fn four_byte_signed_forms() {
    assert_eq!(four_signed(0), [0x00]);
    assert_eq!(four_signed(0x1F), [0x1F]);
    assert_eq!(four_signed(-0x1F), [0x3F]);
    assert_eq!(four_signed(0x20), [0x40, 0x20]);
    assert_eq!(four_signed(-0x20), [0x60, 0x20]);
    assert_eq!(four_signed(320), [0x41, 0x40]);
    assert_eq!(four_signed(-320), [0x61, 0x40]);
    assert_eq!(four_signed(0x1FFF), [0x5F, 0xFF]);
    assert_eq!(four_signed(0x2000), [0x80, 0x20, 0x00]);
    assert_eq!(four_signed(-0x1F_FFFF), [0xBF, 0xFF, 0xFF]);
    assert_eq!(four_signed(0x20_0000), [0xC0, 0x20, 0x00, 0x00]);
    assert_eq!(four_signed(0x1FFF_FFFF), [0xDF, 0xFF, 0xFF, 0xFF]);
    assert_eq!(four_signed(-0x1FFF_FFFF), [0xFF, 0xFF, 0xFF, 0xFF]);
}

#[test]
fn four_byte_signed_refuses_large_magnitudes() {
    for value in [0x2000_0000, -0x2000_0000, i32::MAX, i32::MIN] {
        let mut dst = Vec::new();
        assert_eq!(write_4byte_signed(&mut dst, value), Err(EncodeError::FourByteSignedOutOfRange));
        assert!(dst.is_empty());
    }
}

#[test]
fn eight_byte_unsigned_forms() {
    assert_eq!(eight_unsigned(0), [0x00]);
    assert_eq!(eight_unsigned(0x1F), [0x1F]);
    assert_eq!(eight_unsigned(0x20), [0x20, 0x20]);
    assert_eq!(eight_unsigned(1000), [0x23, 0xE8]);
    assert_eq!(eight_unsigned(0x1FFF), [0x3F, 0xFF]);
    assert_eq!(eight_unsigned(0x2000), [0x40, 0x20, 0x00]);
    assert_eq!(
        eight_unsigned(0x0012_3456_789A_BCDE),
        [0xD2, 0x34, 0x56, 0x78, 0x9A, 0xBC, 0xDE]
    );
    assert_eq!(
        eight_unsigned(0x01FF_FFFF_FFFF_FFFF),
        [0xE1, 0xFF, 0xFF, 0xFF, 0xFF, 0xFF, 0xFF, 0xFF]
    );
}

#[test]
fn eight_byte_unsigned_refuses_more_than_57_bits() {
    for value in [0x0200_0000_0000_0000, u64::MAX] {
        let mut dst = Vec::new();
        assert_eq!(
            write_8byte_unsigned(&mut dst, value),
            Err(EncodeError::EightByteUnsignedOutOfRange)
        );
        assert!(dst.is_empty());
    }
}

#[test]
fn values_are_appended() {
    let mut dst = vec![0x55];
    write_2byte_unsigned(&mut dst, 0x7F).unwrap();
    write_4byte_signed(&mut dst, -1).unwrap();
    write_8byte_unsigned(&mut dst, 0x20).unwrap();
    assert_eq!(dst, [0x55, 0x80, 0x7F, 0x21, 0x20, 0x20]);
}

#[test]
fn four_byte_integers_read_back() {
    for value in [0u32, 1, 0x3F, 0x40, 0xFFFF, 0x12_3456, 0x3FFF_FFFF] {
        let bytes = four_unsigned(value);
        assert_eq!(bytes.len(), usize::from(bytes[0] / 0x40) + 1);
        assert_eq!(join(u64::from(bytes[0] % 0x40), &bytes[1..]), u64::from(value));
    }
    for value in [0i32, 5, -5, 4096, -4096, 0x12_3456, -0x1FFF_FFFF] {
        let bytes = four_signed(value);
        assert_eq!(bytes.len(), usize::from(bytes[0] / 0x40) + 1);
        assert_eq!(bytes[0] & 0x20 != 0, value < 0);
        assert_eq!(
            join(u64::from(bytes[0] % 0x20), &bytes[1..]),
            u64::from(value.unsigned_abs())
        );
    }
}

#[test]
fn eight_byte_integers_read_back() {
    for shift in 0..57 {
        let value = 1u64 << shift;
        let bytes = eight_unsigned(value);
        assert_eq!(bytes.len(), usize::from(bytes[0] / 0x20) + 1);
        assert_eq!(join(u64::from(bytes[0] % 0x20), &bytes[1..]), value);
    }
}
