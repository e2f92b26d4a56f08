//! Free rounding helpers: reduce a left-justified fraction to a narrower
//! width, rounding half up.  Each function adds half of the last kept step
//! and drops the discarded bits.

use vstd::prelude::*;

verus! {

/// Round a 16-bit left-justified fraction to 8 bits, half up.
pub fn u16_to_u8_round(val: u16) -> (r: u8)
    requires
        val <= 0xFF7F,
    ensures
        r as nat == (val + 0x80) as nat / 0x100,
{
    ((val + 0x80) / 0x100) as u8
}

/// Round a 32-bit left-justified fraction to 8 bits, half up.
pub fn u32_to_u8_round(val: u32) -> (r: u8)
    requires
        val <= 0xFF7FFFFF,
    ensures
        r as nat == (val + 0x800000) as nat / 0x1000000,
{
    ((val + 0x800000) / 0x1000000) as u8
}

/// Round a 64-bit left-justified fraction to 8 bits, half up.
pub fn u64_to_u8_round(val: u64) -> (r: u8)
    requires
        val <= 0xFF7FFFFFFFFFFFFF,
    ensures
        r as nat == (val + 0x80000000000000) as nat / 0x100000000000000,
{
    ((val + 0x80000000000000) / 0x100000000000000) as u8
}

/// Round a 32-bit left-justified fraction to 16 bits, half up.
pub fn u32_to_u16_round(val: u32) -> (r: u16)
    requires
        val <= 0xFFFF7FFF,
    ensures
        r as nat == (val + 0x8000) as nat / 0x10000,
{
    ((val + 0x8000) / 0x10000) as u16
}

/// Round a 64-bit left-justified fraction to 16 bits, half up.
pub fn u64_to_u16_round(val: u64) -> (r: u16)
    requires
        val <= 0xFFFF7FFFFFFFFFFF,
    ensures
        r as nat == (val + 0x800000000000) as nat / 0x1000000000000,
{
    ((val + 0x800000000000) / 0x1000000000000) as u16
}

/// Round a 64-bit left-justified fraction to 32 bits, half up.
pub fn u64_to_u32_round(val: u64) -> (r: u32)
    requires
        val <= 0xFFFFFFFF7FFFFFFF,
    ensures
        r as nat == (val + 0x80000000) as nat / 0x100000000,
{
    ((val + 0x80000000) / 0x100000000) as u32
}

} // verus!
