//! The variable-length integers of RDPEI.
//!
//! Every one of them starts with a byte whose high bits say how many bytes follow, and goes on
//! with the value in big-endian order. The signed ones keep a sign bit and the magnitude.

use crate::error::EncodeError;
use vstd::prelude::*;

verus! {

/// Largest value of a `TWO_BYTE_UNSIGNED_INTEGER`.
pub const TWO_BYTE_UNSIGNED_MAX: u16 = 0x7FFF;

/// Largest magnitude of a `TWO_BYTE_SIGNED_INTEGER`.
pub const TWO_BYTE_SIGNED_MAX: u16 = 0x3FFF;

/// Largest value of a `FOUR_BYTE_UNSIGNED_INTEGER`.
pub const FOUR_BYTE_UNSIGNED_MAX: u32 = 0x3FFF_FFFF;

/// Largest magnitude of a `FOUR_BYTE_SIGNED_INTEGER`.
pub const FOUR_BYTE_SIGNED_MAX: u32 = 0x1FFF_FFFF;

/// Largest value that is accepted for an `EIGHT_BYTE_UNSIGNED_INTEGER`.
pub const EIGHT_BYTE_UNSIGNED_MAX: u64 = 0x01FF_FFFF_FFFF_FFFF;

/// The magnitude of `v`.
pub open spec fn magnitude(v: int) -> nat {
    if v < 0 {
        (-v) as nat
    } else {
        v as nat
    }
}

/// How many whole bytes have to leave `v` at its low end before it is below `cap`.
pub open spec fn tail_len(v: nat, cap: nat) -> nat
    decreases v,
{
    if v < cap || v == 0 {
        0
    } else {
        1 + tail_len(v / 256, cap)
    }
}

/// `v` without its `n` low bytes.
pub open spec fn without_low_bytes(v: nat, n: nat) -> nat
    decreases n,
{
    if n == 0 {
        v
    } else {
        without_low_bytes(v / 256, (n - 1) as nat)
    }
}

/// The `n` low bytes of `v`, the most significant of them first.
pub open spec fn low_bytes(v: nat, n: nat) -> Seq<u8>
    decreases n,
{
    if n == 0 {
        Seq::empty()
    } else {
        low_bytes(v / 256, (n - 1) as nat).push((v % 256) as u8)
    }
}

/// The number whose high part is `high` and whose low bytes are `bytes`, most significant first.
pub open spec fn join_bytes(high: nat, bytes: Seq<u8>) -> nat
    decreases bytes.len(),
{
    if bytes.len() == 0 {
        high
    } else {
        256 * join_bytes(high, bytes.drop_last()) + bytes.last() as nat
    }
}

/// Wire form of a `TWO_BYTE_UNSIGNED_INTEGER`: the top bit tells one byte from two.
pub open spec fn two_byte_unsigned(v: nat) -> Seq<u8> {
    if v < 0x7F {
        seq![v as u8]
    } else {
        seq![(0x80 + v / 256) as u8, (v % 256) as u8]
    }
}

/// Wire form of a `TWO_BYTE_SIGNED_INTEGER`: as the unsigned one, with a sign bit below the top bit.
pub open spec fn two_byte_signed(v: int) -> Seq<u8> {
    let m = magnitude(v);
    let sign: nat = if v < 0 {
        0x40
    } else {
        0
    };
    if m < 0x3F {
        seq![(sign + m) as u8]
    } else {
        seq![(0x80 + sign + m / 256) as u8, (m % 256) as u8]
    }
}

/// Wire form of a `FOUR_BYTE_UNSIGNED_INTEGER`: the top two bits count the bytes that follow.
pub open spec fn four_byte_unsigned(v: nat) -> Seq<u8> {
    let n = tail_len(v, 0x40);
    seq![(0x40 * n + without_low_bytes(v, n)) as u8] + low_bytes(v, n)
}

/// Wire form of a `FOUR_BYTE_SIGNED_INTEGER`: as the unsigned one, with a sign bit below the counter.
pub open spec fn four_byte_signed(v: int) -> Seq<u8> {
    let m = magnitude(v);
    let n = tail_len(m, 0x20);
    let sign: nat = if v < 0 {
        0x20
    } else {
        0
    };
    seq![(0x40 * n + sign + without_low_bytes(m, n)) as u8] + low_bytes(m, n)
}

/// Wire form of an `EIGHT_BYTE_UNSIGNED_INTEGER`: the top three bits count the bytes that follow.
pub open spec fn eight_byte_unsigned(v: nat) -> Seq<u8> {
    let n = tail_len(v, 0x20);
    seq![(0x20 * n + without_low_bytes(v, n)) as u8] + low_bytes(v, n)
}

/// Appends a `TWO_BYTE_UNSIGNED_INTEGER`.
pub fn write_2byte_unsigned(dst: &mut Vec<u8>, value: u16) -> (result: Result<(), EncodeError>)
    ensures
        value <= TWO_BYTE_UNSIGNED_MAX ==> result == Ok::<(), EncodeError>(()) && final(dst)@ == old(
            dst,
        )@ + two_byte_unsigned(value as nat),
        value > TWO_BYTE_UNSIGNED_MAX ==> result == Err::<(), EncodeError>(
            EncodeError::TwoByteUnsignedOutOfRange,
        ) && final(dst)@ == old(dst)@,
{
    if value > TWO_BYTE_UNSIGNED_MAX {
        return Err(EncodeError::TwoByteUnsignedOutOfRange);
    }
    if value >= 0x7F {
        assert(value <= 0x7FFF ==> ((value & 0x7F00) >> 8) as u8 | 0x80 == 0x80 + value / 256
            && value & 0x00FF == value % 256) by (bit_vector);
        dst.push(((value & 0x7F00) >> 8) as u8 | 0x80);
        dst.push((value & 0x00FF) as u8);
    } else {
        assert(value < 0x7F ==> value & 0x007F == value) by (bit_vector);
        dst.push((value & 0x007F) as u8);
    }
    assert(dst@ =~= old(dst)@ + two_byte_unsigned(value as nat));
    Ok(())
}

/// Appends a `TWO_BYTE_SIGNED_INTEGER`.
pub fn write_2byte_signed(dst: &mut Vec<u8>, value: i16) -> (result: Result<(), EncodeError>)
    ensures
        magnitude(value as int) <= TWO_BYTE_SIGNED_MAX ==> result == Ok::<(), EncodeError>(())
            && final(dst)@ == old(dst)@ + two_byte_signed(value as int),
        magnitude(value as int) > TWO_BYTE_SIGNED_MAX ==> result == Err::<(), EncodeError>(
            EncodeError::TwoByteSignedOutOfRange,
        ) && final(dst)@ == old(dst)@,
{
    let negative = value < 0;
    let magnitude: u16 = if negative {
        (-(value as i32)) as u16
    } else {
        value as u16
    };
    if magnitude > TWO_BYTE_SIGNED_MAX {
        return Err(EncodeError::TwoByteSignedOutOfRange);
    }
    let sign: u8 = if negative {
        0x40
    } else {
        0
    };
    if magnitude >= 0x3F {
        assert((magnitude <= 0x3FFF && (sign == 0 || sign == 0x40)) ==> ((magnitude & 0x3F00)
            >> 8) as u8 | sign | 0x80 == 0x80 + sign + magnitude / 256 && magnitude & 0x00FF
            == magnitude % 256) by (bit_vector);
        dst.push(((magnitude & 0x3F00) >> 8) as u8 | sign | 0x80);
        dst.push((magnitude & 0x00FF) as u8);
    } else {
        assert((magnitude < 0x3F && (sign == 0 || sign == 0x40)) ==> (magnitude & 0x003F) as u8
            | sign == sign + magnitude) by (bit_vector);
        dst.push((magnitude & 0x003F) as u8 | sign);
    }
    assert(dst@ =~= old(dst)@ + two_byte_signed(value as int));
    Ok(())
}

/// Appends a `FOUR_BYTE_UNSIGNED_INTEGER`.
pub fn write_4byte_unsigned(dst: &mut Vec<u8>, value: u32) -> (result: Result<(), EncodeError>)
    ensures
        value <= FOUR_BYTE_UNSIGNED_MAX ==> result == Ok::<(), EncodeError>(()) && final(dst)@
            == old(dst)@ + four_byte_unsigned(value as nat),
        value > FOUR_BYTE_UNSIGNED_MAX ==> result == Err::<(), EncodeError>(
            EncodeError::FourByteUnsignedOutOfRange,
        ) && final(dst)@ == old(dst)@,
{
    proof {
        reveal_with_fuel(tail_len, 5);
        reveal_with_fuel(without_low_bytes, 5);
        reveal_with_fuel(low_bytes, 5);
        lemma_byte_shifts_u32(value);
    }
    if value <= 0x3F {
        dst.push(value as u8);
    } else if value <= 0x3FFF {
        assert(value <= 0x3FFF ==> ((value >> 8) & 0x3F) as u8 | 0x40 == 0x40 + (value >> 8))
            by (bit_vector);
        dst.push(((value >> 8) & 0x3F) as u8 | 0x40);
        dst.push((value & 0xFF) as u8);
    } else if value <= 0x3F_FFFF {
        assert(value <= 0x3F_FFFF ==> ((value >> 16) & 0x3F) as u8 | 0x80 == 0x80 + (value >> 16))
            by (bit_vector);
        dst.push(((value >> 16) & 0x3F) as u8 | 0x80);
        dst.push(((value >> 8) & 0xFF) as u8);
        dst.push((value & 0xFF) as u8);
    } else if value <= FOUR_BYTE_UNSIGNED_MAX {
        assert(value <= 0x3FFF_FFFF ==> ((value >> 24) & 0x3F) as u8 | 0xC0 == 0xC0 + (value >> 24))
            by (bit_vector);
        dst.push(((value >> 24) & 0x3F) as u8 | 0xC0);
        dst.push(((value >> 16) & 0xFF) as u8);
        dst.push(((value >> 8) & 0xFF) as u8);
        dst.push((value & 0xFF) as u8);
    } else {
        return Err(EncodeError::FourByteUnsignedOutOfRange);
    }
    assert(dst@ =~= old(dst)@ + four_byte_unsigned(value as nat));
    Ok(())
}

/// Appends a `FOUR_BYTE_SIGNED_INTEGER`.
pub fn write_4byte_signed(dst: &mut Vec<u8>, value: i32) -> (result: Result<(), EncodeError>)
    ensures
        magnitude(value as int) <= FOUR_BYTE_SIGNED_MAX ==> result == Ok::<(), EncodeError>(())
            && final(dst)@ == old(dst)@ + four_byte_signed(value as int),
        magnitude(value as int) > FOUR_BYTE_SIGNED_MAX ==> result == Err::<(), EncodeError>(
            EncodeError::FourByteSignedOutOfRange,
        ) && final(dst)@ == old(dst)@,
{
    let negative = value < 0;
    let magnitude: u32 = if negative {
        (-(value as i64)) as u32
    } else {
        value as u32
    };
    let sign: u8 = if negative {
        0x20
    } else {
        0
    };
    proof {
        reveal_with_fuel(tail_len, 5);
        reveal_with_fuel(without_low_bytes, 5);
        reveal_with_fuel(low_bytes, 5);
        lemma_byte_shifts_u32(magnitude);
    }
    if magnitude <= 0x1F {
        assert((magnitude <= 0x1F && (sign == 0 || sign == 0x20)) ==> magnitude as u8 | sign == sign
            + magnitude) by (bit_vector);
        dst.push(magnitude as u8 | sign);
    } else if magnitude <= 0x1FFF {
        assert((magnitude <= 0x1FFF && (sign == 0 || sign == 0x20)) ==> ((magnitude >> 8)
            & 0x1F) as u8 | sign | 0x40 == 0x40 + sign + (magnitude >> 8)) by (bit_vector);
        dst.push(((magnitude >> 8) & 0x1F) as u8 | sign | 0x40);
        dst.push((magnitude & 0xFF) as u8);
    } else if magnitude <= 0x1F_FFFF {
        assert((magnitude <= 0x1F_FFFF && (sign == 0 || sign == 0x20)) ==> ((magnitude >> 16)
            & 0x1F) as u8 | sign | 0x80 == 0x80 + sign + (magnitude >> 16)) by (bit_vector);
        dst.push(((magnitude >> 16) & 0x1F) as u8 | sign | 0x80);
        dst.push(((magnitude >> 8) & 0xFF) as u8);
        dst.push((magnitude & 0xFF) as u8);
    } else if magnitude <= FOUR_BYTE_SIGNED_MAX {
        assert((magnitude <= 0x1FFF_FFFF && (sign == 0 || sign == 0x20)) ==> ((magnitude >> 24)
            & 0x1F) as u8 | sign | 0xC0 == 0xC0 + sign + (magnitude >> 24)) by (bit_vector);
        dst.push(((magnitude >> 24) & 0x1F) as u8 | sign | 0xC0);
        dst.push(((magnitude >> 16) & 0xFF) as u8);
        dst.push(((magnitude >> 8) & 0xFF) as u8);
        dst.push((magnitude & 0xFF) as u8);
    } else {
        return Err(EncodeError::FourByteSignedOutOfRange);
    }
    assert(dst@ =~= old(dst)@ + four_byte_signed(value as int));
    Ok(())
}

/// Appends an `EIGHT_BYTE_UNSIGNED_INTEGER`.
pub fn write_8byte_unsigned(dst: &mut Vec<u8>, value: u64) -> (result: Result<(), EncodeError>)
    ensures
        value <= EIGHT_BYTE_UNSIGNED_MAX ==> result == Ok::<(), EncodeError>(()) && final(dst)@
            == old(dst)@ + eight_byte_unsigned(value as nat),
        value > EIGHT_BYTE_UNSIGNED_MAX ==> result == Err::<(), EncodeError>(
            EncodeError::EightByteUnsignedOutOfRange,
        ) && final(dst)@ == old(dst)@,
{
    if value > EIGHT_BYTE_UNSIGNED_MAX {
        return Err(EncodeError::EightByteUnsignedOutOfRange);
    }
    let mut count: u8 = 0;
    let mut max: u64 = 0x1F;
    proof {
        assert(0x1Fu64 + 1 == 0x20u64 << 0u32 && value >> 0u32 == value) by (bit_vector);
    }
    while value > max
        invariant
            count <= 7,
            value <= EIGHT_BYTE_UNSIGNED_MAX,
            max + 1 == 0x20u64 << (8 * count) as u32,
            tail_len(value as nat, 0x20) == count + tail_len(
                (value >> (8 * count) as u32) as nat,
                0x20,
            ),
        decreases 8 - count,
    {
        let ghost shift = (8 * count) as u32;
        proof {
            lemma_threshold_step(value, max, shift);
            assert((8 * (count + 1)) as u32 == (shift + 8) as u32);
        }
        count = count + 1;
        max = (max << 8) | 0xFF;
    }
    let shift: u32 = count as u32 * 8;
    proof {
        let high = value >> shift;
        assert((max + 1 == 0x20u64 << shift && shift <= 56 && value <= max) ==> value >> shift < 0x20)
            by (bit_vector);
        assert((high < 0x20 && count <= 7) ==> (high & 0x1F) as u8 | (count << 5) == 0x20 * count
            + high) by (bit_vector);
        lemma_shift_is_without_low_bytes(value, count as nat);
    }
    dst.push(((value >> shift) & 0x1F) as u8 | (count << 5));
    let ghost lead = dst@;
    let mut byte_index: u8 = count;
    while byte_index > 0
        invariant
            byte_index <= count <= 7,
            dst@ == lead + low_bytes(
                (value >> (8 * byte_index) as u32) as nat,
                (count - byte_index) as nat,
            ),
        decreases byte_index,
    {
        byte_index = byte_index - 1;
        let shift: u32 = byte_index as u32 * 8;
        proof {
            assert(shift <= 48 ==> (value >> shift) / 256 == value >> ((shift + 8) as u32) && (value
                >> shift) & 0xFF == (value >> shift) % 256) by (bit_vector);
            assert((8 * (byte_index + 1)) as u32 == (shift + 8) as u32);
        }
        dst.push(((value >> shift) & 0xFF) as u8);
        assert(dst@ =~= lead + low_bytes(
            (value >> shift) as nat,
            (count - byte_index) as nat,
        ));
    }
    proof {
        assert(value >> 0u32 == value) by (bit_vector);
        assert(dst@ =~= old(dst)@ + eight_byte_unsigned(value as nat));
    }
    Ok(())
}

/// No wire form is longer than the widest value of its type makes it.
pub(crate) proof fn lemma_lengths(a: u16, b: i16, c: u32, d: i32, e: u64)
    ensures
        1 <= two_byte_unsigned(a as nat).len() <= 2,
        1 <= two_byte_signed(b as int).len() <= 2,
        1 <= four_byte_unsigned(c as nat).len() <= 5,
        1 <= four_byte_signed(d as int).len() <= 5,
        1 <= eight_byte_unsigned(e as nat).len() <= 9,
{
    reveal_with_fuel(tail_len, 9);
    lemma_low_bytes_length(c as nat, tail_len(c as nat, 0x40));
    lemma_low_bytes_length(magnitude(d as int), tail_len(magnitude(d as int), 0x20));
    lemma_low_bytes_length(e as nat, tail_len(e as nat, 0x20));
}

/// `low_bytes` gives as many bytes as it is asked for.
proof fn lemma_low_bytes_length(v: nat, n: nat)
    ensures
        low_bytes(v, n).len() == n,
    decreases n,
{
    if n > 0 {
        lemma_low_bytes_length(v / 256, (n - 1) as nat);
    }
}

/// One more byte behind the first one moves the largest value that fits from `max` to
/// `(max << 8) | 0xFF`.
proof fn lemma_threshold_step(value: u64, max: u64, shift: u32)
    requires
        shift <= 56,
        shift % 8 == 0,
        max + 1 == 0x20u64 << shift,
        max < value <= EIGHT_BYTE_UNSIGNED_MAX,
    ensures
        shift <= 48,
        ((max << 8) | 0xFF) + 1 == 0x20u64 << ((shift + 8) as u32),
        tail_len((value >> shift) as nat, 0x20) == 1 + tail_len(
            (value >> ((shift + 8) as u32)) as nat,
            0x20,
        ),
{
    assert((shift <= 56 && shift % 8 == 0 && max + 1 == 0x20u64 << shift && max < value && value
        <= 0x01FF_FFFF_FFFF_FFFF) ==> shift <= 48 && ((max << 8) | 0xFF) + 1 == 0x20u64 << ((shift
        + 8) as u32) && value >> shift >= 0x20 && (value >> shift) / 256 == value >> ((shift
        + 8) as u32)) by (bit_vector);
}

/// Shifting by `n` bytes drops the `n` low bytes.
proof fn lemma_shift_is_without_low_bytes(v: u64, n: nat)
    requires
        n <= 7,
    ensures
        without_low_bytes(v as nat, n) == v >> (8 * n) as u32,
    decreases n,
{
    if n == 0 {
        assert(v >> 0u32 == v) by (bit_vector);
    } else {
        lemma_shift_is_without_low_bytes(v / 256, (n - 1) as nat);
        let shift = (8 * (n - 1)) as u32;
        assert(shift <= 48 ==> (v / 256) >> shift == v >> ((shift + 8) as u32)) by (bit_vector);
        assert((8 * n) as u32 == (shift + 8) as u32);
    }
}

/// Shifting by whole bytes is dividing by 256 as often; masking a byte out is the remainder.
proof fn lemma_byte_shifts_u32(v: u32)
    ensures
        v >> 8 == v / 256,
        v >> 16 == v / 256 / 256,
        v >> 24 == v / 256 / 256 / 256,
        v & 0xFF == v % 256,
        (v >> 8) & 0xFF == (v / 256) % 256,
        (v >> 16) & 0xFF == (v / 256 / 256) % 256,
{
    assert(v >> 8 == v / 256 && v >> 16 == v / 256 / 256 && v >> 24 == v / 256 / 256 / 256)
        by (bit_vector);
    assert(v & 0xFF == v % 256 && (v >> 8) & 0xFF == (v / 256) % 256 && (v >> 16) & 0xFF == (v / 256
        / 256) % 256) by (bit_vector);
}

} // verus!
