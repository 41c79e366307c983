//! Multi-byte numbers in the byte orders that chunk headers use.

use vstd::prelude::*;

verus! {

/// The number that the first three bytes stand for, most significant byte first.
pub open spec fn be24(bytes: Seq<u8>) -> int
    recommends
        bytes.len() >= 3,
{
    bytes[0] * 0x1_0000 + bytes[1] * 0x100 + bytes[2]
}

/// The number that the first four bytes stand for, most significant byte first.
pub open spec fn be32(bytes: Seq<u8>) -> int
    recommends
        bytes.len() >= 4,
{
    bytes[0] * 0x100_0000 + bytes[1] * 0x1_0000 + bytes[2] * 0x100 + bytes[3]
}

/// The number that the first four bytes stand for, least significant byte first.
pub open spec fn le32(bytes: Seq<u8>) -> int
    recommends
        bytes.len() >= 4,
{
    bytes[3] * 0x100_0000 + bytes[2] * 0x1_0000 + bytes[1] * 0x100 + bytes[0]
}

/// The big-endian number in the first three bytes, if there are that many.
pub(crate) fn read_u24_be(bytes: &Vec<u8>) -> (number: Option<u32>)
    ensures
        number is Some <==> bytes@.len() >= 3,
        number matches Some(value) ==> value == bytes@[0] * 65536 + bytes@[1] * 256 + bytes@[2],
        number matches Some(value) ==> value == be24(bytes@),
{
    if bytes.len() < 3 {
        return None;
    }
    Some(bytes[0] as u32 * 0x1_0000 + bytes[1] as u32 * 0x100 + bytes[2] as u32)
}

/// The big-endian number in the first four bytes, if there are that many.
pub(crate) fn read_u32_be(bytes: &Vec<u8>) -> (number: Option<u32>)
    ensures
        number is Some <==> bytes@.len() >= 4,
        number matches Some(value) ==> value == bytes@[0] * 16777216 + bytes@[1] * 65536 + bytes@[2]
            * 256 + bytes@[3],
        number matches Some(value) ==> value == be32(bytes@),
{
    if bytes.len() < 4 {
        return None;
    }
    Some(
        bytes[0] as u32 * 0x100_0000 + bytes[1] as u32 * 0x1_0000 + bytes[2] as u32 * 0x100
            + bytes[3] as u32,
    )
}

/// The little-endian number in the first four bytes, if there are that many.
pub(crate) fn read_u32_le(bytes: &Vec<u8>) -> (number: Option<u32>)
    ensures
        number is Some <==> bytes@.len() >= 4,
        number matches Some(value) ==> value == bytes@[0] + bytes@[1] * 256 + bytes@[2] * 65536
            + bytes@[3] * 16777216,
        number matches Some(value) ==> value == le32(bytes@),
{
    if bytes.len() < 4 {
        return None;
    }
    Some(
        bytes[3] as u32 * 0x100_0000 + bytes[2] as u32 * 0x1_0000 + bytes[1] as u32 * 0x100
            + bytes[0] as u32,
    )
}

} // verus!
