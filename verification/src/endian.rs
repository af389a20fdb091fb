//! Little-endian integers of fixed width.

use vstd::prelude::*;

verus! {

/// The two bytes of `v`, least significant first.
pub open spec fn u16_bytes(v: u16) -> Seq<u8> {
    seq![(v % 256) as u8, (v / 256) as u8]
}

/// The four bytes of `v`, least significant first.
pub open spec fn u32_bytes(v: u32) -> Seq<u8> {
    seq![
        (v % 256) as u8,
        (v / 256 % 256) as u8,
        (v / 256 / 256 % 256) as u8,
        (v / 256 / 256 / 256) as u8,
    ]
}

/// The number that the first two bytes of `s` are.
pub open spec fn read_u16(s: Seq<u8>) -> u16
    recommends
        s.len() >= 2,
{
    (s[0] + 256 * s[1]) as u16
}

/// The number that the first four bytes of `s` are.
pub open spec fn read_u32(s: Seq<u8>) -> u32
    recommends
        s.len() >= 4,
{
    (s[0] + 256 * (s[1] + 256 * (s[2] + 256 * s[3]))) as u32
}

/// Both widths read back as what was written, whatever follows.
pub proof fn integers_read_back(a: u16, b: u32, rest: Seq<u8>)
    ensures
        read_u16(u16_bytes(a) + rest) == a,
        read_u32(u32_bytes(b) + rest) == b,
{
}

/// Appends the two bytes of `value`.
pub(crate) fn push_u16(dst: &mut Vec<u8>, value: u16)
    ensures
        final(dst)@ == old(dst)@ + u16_bytes(value),
{
    dst.push((value % 256) as u8);
    dst.push((value / 256) as u8);
    assert(dst@ =~= old(dst)@ + u16_bytes(value));
}

/// Appends the four bytes of `value`.
pub(crate) fn push_u32(dst: &mut Vec<u8>, value: u32)
    ensures
        final(dst)@ == old(dst)@ + u32_bytes(value),
{
    dst.push((value % 256) as u8);
    dst.push((value / 256 % 256) as u8);
    dst.push((value / 256 / 256 % 256) as u8);
    dst.push((value / 256 / 256 / 256) as u8);
    assert(dst@ =~= old(dst)@ + u32_bytes(value));
}

} // verus!
