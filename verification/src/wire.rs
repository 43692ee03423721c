//! Numbers in the byte order of the protocol, most significant byte first.

use vstd::prelude::*;

verus! {

/// The number in two bytes.
pub open spec fn be_u16(b0: u8, b1: u8) -> u16 {
    (b0 * 0x100 + b1) as u16
}

/// The number in four bytes.
pub open spec fn be_u32(b0: u8, b1: u8, b2: u8, b3: u8) -> u32 {
    (b0 * 0x100_0000 + b1 * 0x1_0000 + b2 * 0x100 + b3) as u32
}

/// Reads the number in two bytes.
pub fn read_u16(b0: u8, b1: u8) -> (n: u16)
    ensures
        n == be_u16(b0, b1),
        n == 256 * b0 + b1,
{
    b0 as u16 * 0x100 + b1 as u16
}

/// Reads the number in four bytes.
pub fn read_u32(b0: u8, b1: u8, b2: u8, b3: u8) -> (n: u32)
    ensures
        n == be_u32(b0, b1, b2, b3),
        n == 256 * (256 * (256 * b0 + b1) + b2) + b3,
{
    b0 as u32 * 0x100_0000 + b1 as u32 * 0x1_0000 + b2 as u32 * 0x100 + b3 as u32
}

/// A number is read back from its two bytes, the more significant one first.
pub proof fn u16_round_trip(n: u16)
    ensures
        be_u16((n / 256) as u8, (n % 256) as u8) == n,
{
}

/// Two bytes are told apart by the number in them.
pub proof fn u16_is_one_to_one(a0: u8, a1: u8, b0: u8, b1: u8)
    ensures
        be_u16(a0, a1) == be_u16(b0, b1) ==> a0 == b0 && a1 == b1,
        be_u16(a0, a1) == 256 * a0 + a1,
{
}

/// The number in four bytes is made of the numbers in their halves, the more significant half
/// first.
pub proof fn u32_is_made_of_halves(b0: u8, b1: u8, b2: u8, b3: u8)
    ensures
        be_u32(b0, b1, b2, b3) == 65536 * (256 * b0 + b1) + (256 * b2 + b3),
        be_u32(b0, b1, b2, b3) == 65536 * be_u16(b0, b1) + be_u16(b2, b3),
{
}

/// A number is read back from its four bytes, the most significant one first.
pub proof fn u32_round_trip(n: u32)
    ensures
        be_u32(
            (n / 0x100_0000) as u8,
            (n / 0x1_0000 % 256) as u8,
            (n / 256 % 256) as u8,
            (n % 256) as u8,
        ) == n,
{
}

} // verus!
