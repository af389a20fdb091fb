//! The cursors and the errors of `ironrdp-core`.
//!
//! Nothing in this file is proved: each item says what the function of `ironrdp-core` that it
//! names does.

use crate::endian;
use vstd::prelude::*;

verus! {

/// `ironrdp_core::ReadCursor`: a byte slice and a position in it.
#[verifier::external_type_specification]
#[verifier::external_body]
pub struct ExReadCursor<'a>(ironrdp_core::ReadCursor<'a>);

/// The bytes that a cursor has not read yet, as its `remaining` gives them.
pub uninterp spec fn unread(cursor: ironrdp_core::ReadCursor<'_>) -> Seq<u8>;

/// `ReadCursor::new` starts in front of the first byte.
pub assume_specification<'a>[ ironrdp_core::ReadCursor::<'a>::new ](bytes: &'a [u8]) -> (cursor:
    ironrdp_core::ReadCursor<'a>)
    ensures
        unread(cursor) == bytes@,
;

/// `ReadCursor::len` counts the bytes that are left; a cursor that was moved past the end has none.
pub assume_specification<'a>[ ironrdp_core::ReadCursor::<'a>::len ](
    cursor: &ironrdp_core::ReadCursor<'a>,
) -> (len: usize)
    ensures
        len == unread(*cursor).len(),
;

/// `ReadCursor::read_u16` takes two bytes, least significant first. It panics where they are not
/// there.
pub assume_specification<'a>[ ironrdp_core::ReadCursor::<'a>::read_u16 ](
    cursor: &mut ironrdp_core::ReadCursor<'a>,
) -> (value: u16)
    requires
        unread(*old(cursor)).len() >= 2,
    ensures
        value == endian::read_u16(unread(*old(cursor))),
        unread(*final(cursor)) == unread(*old(cursor)).skip(2),
;

/// `ReadCursor::read_u32` takes four bytes, least significant first. It panics where they are not
/// there.
pub assume_specification<'a>[ ironrdp_core::ReadCursor::<'a>::read_u32 ](
    cursor: &mut ironrdp_core::ReadCursor<'a>,
) -> (value: u32)
    requires
        unread(*old(cursor)).len() >= 4,
    ensures
        value == endian::read_u32(unread(*old(cursor))),
        unread(*final(cursor)) == unread(*old(cursor)).skip(4),
;

/// `ironrdp_core::WriteCursor`: a mutable byte slice and a position in it.
#[verifier::external_type_specification]
#[verifier::external_body]
pub struct ExWriteCursor<'a>(ironrdp_core::WriteCursor<'a>);

/// All bytes of the slice that a cursor writes to, as its `inner` gives them.
pub uninterp spec fn buffer(cursor: ironrdp_core::WriteCursor<'_>) -> Seq<u8>;

/// Where in its slice a cursor writes next, as its `pos` gives it.
pub uninterp spec fn position(cursor: ironrdp_core::WriteCursor<'_>) -> nat;

/// How many bytes can still be written. A cursor that was moved past the end has no room.
pub open spec fn room(cursor: ironrdp_core::WriteCursor<'_>) -> nat {
    if position(cursor) <= buffer(cursor).len() {
        (buffer(cursor).len() - position(cursor)) as nat
    } else {
        0
    }
}

/// `after` is `before` once `bytes` have been written: they replace as many bytes at the position,
/// which moves behind them, and nothing else changes.
pub open spec fn wrote(
    before: ironrdp_core::WriteCursor<'_>,
    after: ironrdp_core::WriteCursor<'_>,
    bytes: Seq<u8>,
) -> bool {
    let start = position(before) as int;
    &&& position(after) == position(before) + bytes.len()
    &&& buffer(after) == buffer(before).take(start) + bytes + buffer(before).skip(
        start + bytes.len(),
    )
}

/// `WriteCursor::inner` gives the whole slice.
pub assume_specification<'a, 'b>[ ironrdp_core::WriteCursor::<'a>::inner ](
    cursor: &'b ironrdp_core::WriteCursor<'a>,
) -> (bytes: &'b [u8])
    ensures
        bytes@ == buffer(*cursor),
;

/// `WriteCursor::pos` gives the position.
pub assume_specification<'a>[ ironrdp_core::WriteCursor::<'a>::pos ](
    cursor: &ironrdp_core::WriteCursor<'a>,
) -> (pos: usize)
    ensures
        pos == position(*cursor),
;

/// `WriteCursor::write_u16` writes two bytes, least significant first. It panics where there is no
/// room for them.
pub assume_specification<'a>[ ironrdp_core::WriteCursor::<'a>::write_u16 ](
    cursor: &mut ironrdp_core::WriteCursor<'a>,
    value: u16,
)
    requires
        room(*old(cursor)) >= 2,
    ensures
        wrote(*old(cursor), *final(cursor), endian::u16_bytes(value)),
;

/// `WriteCursor::write_u32` writes four bytes, least significant first. It panics where there is
/// no room for them.
pub assume_specification<'a>[ ironrdp_core::WriteCursor::<'a>::write_u32 ](
    cursor: &mut ironrdp_core::WriteCursor<'a>,
    value: u32,
)
    requires
        room(*old(cursor)) >= 4,
    ensures
        wrote(*old(cursor), *final(cursor), endian::u32_bytes(value)),
;

/// `WriteCursor::write_slice` writes the bytes of a slice. It panics where there is no room for
/// them; a cursor that was moved past the end takes not even an empty slice.
pub assume_specification<'a>[ ironrdp_core::WriteCursor::<'a>::write_slice ](
    cursor: &mut ironrdp_core::WriteCursor<'a>,
    slice: &[u8],
)
    requires
        position(*old(cursor)) + slice@.len() <= buffer(*old(cursor)).len(),
    ensures
        wrote(*old(cursor), *final(cursor), slice@),
;

/// `ironrdp_error::Error`: a kind of error, with where and why it came up.
#[verifier::external_type_specification]
#[verifier::external_body]
#[verifier::reject_recursive_types(Kind)]
pub struct ExError<Kind>(ironrdp_error::Error<Kind>);

/// `ironrdp_core::EncodeErrorKind`: what can go wrong in an encoder.
#[verifier::external_type_specification]
#[verifier::external_body]
pub struct ExEncodeErrorKind(ironrdp_core::EncodeErrorKind);

/// `ironrdp_core::DecodeErrorKind`: what can go wrong in a decoder.
#[verifier::external_type_specification]
#[verifier::external_body]
pub struct ExDecodeErrorKind(ironrdp_core::DecodeErrorKind);

/// The error that `ironrdp_core::not_enough_bytes_err` makes for an encoder.
pub uninterp spec fn not_enough_bytes_error(
    context: Seq<char>,
    received: usize,
    expected: usize,
    offset: Option<usize>,
) -> ironrdp_core::EncodeError;

/// `ironrdp_core::not_enough_bytes_err` for an encoder: its error holds the arguments and nothing
/// that varies from call to call.
#[verifier::external_body]
pub(crate) fn not_enough_bytes(
    context: &'static str,
    received: usize,
    expected: usize,
    offset: Option<usize>,
) -> (error: ironrdp_core::EncodeError)
    ensures
        error == not_enough_bytes_error(context@, received, expected, offset),
{
    ironrdp_core::not_enough_bytes_err(context, received, expected, offset)
}

/// The error that `ironrdp_core::invalid_field_err` makes for an encoder.
pub uninterp spec fn invalid_encode_field_error(
    context: Seq<char>,
    field: Seq<char>,
    reason: Seq<char>,
    offset: Option<usize>,
) -> ironrdp_core::EncodeError;

/// `ironrdp_core::invalid_field_err` for an encoder: its error holds the arguments and nothing that
/// varies from call to call.
#[verifier::external_body]
pub(crate) fn invalid_encode_field(
    context: &'static str,
    field: &'static str,
    reason: &'static str,
    offset: Option<usize>,
) -> (error: ironrdp_core::EncodeError)
    ensures
        error == invalid_encode_field_error(context@, field@, reason@, offset),
{
    ironrdp_core::invalid_field_err(context, field, reason, offset)
}

/// The error that `ironrdp_core::invalid_field_err` makes for a decoder.
pub uninterp spec fn invalid_field_error(
    context: Seq<char>,
    field: Seq<char>,
    reason: Seq<char>,
    offset: Option<usize>,
) -> ironrdp_core::DecodeError;

/// `ironrdp_core::invalid_field_err` for a decoder: its error holds the arguments and nothing that
/// varies from call to call.
#[verifier::external_body]
pub(crate) fn invalid_field(
    context: &'static str,
    field: &'static str,
    reason: &'static str,
    offset: Option<usize>,
) -> (error: ironrdp_core::DecodeError)
    ensures
        error == invalid_field_error(context@, field@, reason@, offset),
{
    ironrdp_core::invalid_field_err(context, field, reason, offset)
}

} // verus!
