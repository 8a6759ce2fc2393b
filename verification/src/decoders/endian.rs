//! Fixed-width integers as they lie in a byte stream.
use vstd::prelude::*;

verus! {

/// The value of four bytes read as a big-endian 32-bit integer.
pub open spec fn be_u32(b0: u8, b1: u8, b2: u8, b3: u8) -> int {
    b0 as int * 0x100_0000 + b1 as int * 0x1_0000 + b2 as int * 0x100 + b3 as int
}

/// The value of two bytes read as a little-endian 16-bit integer.
pub open spec fn le_u16(b0: u8, b1: u8) -> int {
    b0 as int + b1 as int * 0x100
}

/// The big-endian integer that starts at index `at` of `bytes`.
pub open spec fn be_u32_at(bytes: Seq<u8>, at: int) -> int
    recommends
        0 <= at,
        at + 4 <= bytes.len(),
{
    be_u32(bytes[at], bytes[at + 1], bytes[at + 2], bytes[at + 3])
}

/// The little-endian integer that starts at index `at` of `bytes`.
pub open spec fn le_u16_at(bytes: Seq<u8>, at: int) -> int
    recommends
        0 <= at,
        at + 2 <= bytes.len(),
{
    le_u16(bytes[at], bytes[at + 1])
}

/// Reads four bytes as a big-endian integer.
pub fn u32_from_be(b0: u8, b1: u8, b2: u8, b3: u8) -> (value: u32)
    ensures
        value == be_u32(b0, b1, b2, b3),
{
    let high: u32 = b0 as u32 * 0x100_0000 + b1 as u32 * 0x1_0000;
    let low: u32 = b2 as u32 * 0x100 + b3 as u32;
    high + low
}

/// Reads two bytes as a little-endian integer.
pub fn u16_from_le(b0: u8, b1: u8) -> (value: u16)
    ensures
        value == le_u16(b0, b1),
{
    b0 as u16 + b1 as u16 * 0x100
}

} // verus!
