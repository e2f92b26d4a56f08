//! The 16-bit unsigned certum.

use vstd::prelude::*;
use vstd::arithmetic::power2::{lemma2_to64, lemma2_to64_rest};
use crate::model::{sat_unsigned, mul_sat_unsigned, convert_unsigned};
use crate::codec::{encode_unsigned, decode_bits};
use crate::arith;
use crate::codec;
use crate::certum::u_certum8::uc8;
use crate::certum::u_certum32::uc32;
use crate::certum::u_certum64::uc64;
use crate::certum::u_certum128::uc128;
use crate::certum::certum16::c16;

verus! {

/// A 16-bit unsigned certum: 3 integer bits, 13 fraction bits.
#[derive(Copy, Clone, Debug, PartialEq, Eq, Structural)]
#[allow(non_camel_case_types)]
pub struct uc16 {
    /// The raw bits of the certum.
    pub bits: u16,
}

impl uc16 {
    /// Bits before the binary point.
    pub const DEC: u16 = 3;

    /// Bits after the binary point.
    pub const FRC: u16 = 13;

    /// One whole unit in grains: 2^FRC.
    pub const FRCPOW: u16 = 0x2000;

    /// The minimum value: zero.
    pub fn min() -> (r: Self)
        ensures
            r.bits == 0u16,
    {
        Self { bits: 0 }
    }

    /// The maximum value: all bits set.
    pub fn max() -> (r: Self)
        ensures
            r.bits == 0xFFFFu16,
    {
        Self { bits: 0xFFFF }
    }

    /// The grain: the smallest positive step.
    pub fn grain() -> (r: Self)
        ensures
            r.bits == 1u16,
    {
        Self { bits: 1 }
    }

    /// The closest-below approximation of pi at this resolution.
    pub fn pi() -> (r: Self)
        ensures
            r.bits == 0x6487u16,
    {
        Self { bits: 0x6487 }
    }

    /// The closest-below approximation of Euler's number at this resolution.
    pub fn e() -> (r: Self)
        ensures
            r.bits == 0x56FCu16,
    {
        Self { bits: 0x56FC }
    }

    /// A new certum from raw bits.
    pub fn of(bits: u16) -> (r: Self)
        ensures
            r.bits == bits,
    {
        Self { bits }
    }

    /// The integer field right-justified, and the fraction field
    /// left-justified in the word.
    pub fn components(&self) -> (r: (u16, u16))
        ensures
            r.0 as nat == self.bits as nat / 0x2000,
            r.1 as nat == (self.bits as nat % 0x2000) * 8,
    {
        let int_part = self.bits / 0x2000;
        let frc_part = (self.bits % 0x2000) * 8;
        (int_part, frc_part)
    }

    /// Round a left-justified 64-bit fraction to the width of these bits,
    /// half up.
    pub fn u64_round(val: u64) -> (r: u16)
        requires
            val <= 0xFFFF7FFFFFFFFFFF,
        ensures
            r as nat == (val + 0x800000000000) as nat / 0x1000000000000,
    {
        ((val + 0x800000000000) / 0x1000000000000) as u16
    }

    /// Encode the double with stored bits `fb`: negative values clamp to
    /// zero, the value rounds half-up in grains and saturates at MAX;
    /// +infinity maps to MAX, NaN to zero.
    pub fn from_f64_bits(fb: u64) -> (r: Self)
        ensures
            r.bits as nat == encode_unsigned(fb, 16, 13),
    {
        proof {
            lemma2_to64();
            lemma2_to64_rest();
        }
        let w = codec::encode_unsigned_core(fb, 16, 13);
        Self { bits: w as u16 }
    }

    /// The stored bits of the nearest double, ties to even.
    pub fn to_f64_bits(&self) -> (r: u64)
        ensures
            r as nat == decode_bits(false, self.bits as nat, 13),
    {
        proof {
            lemma2_to64();
            lemma2_to64_rest();
        }
        codec::decode_core(false, self.bits as u64, 13)
    }

    /// Saturating addition.
    pub fn add(self, rhs: Self) -> (r: Self)
        ensures
            r.bits as int == sat_unsigned(self.bits + rhs.bits, 16),
    {
        proof {
            lemma2_to64();
            lemma2_to64_rest();
        }
        let w = arith::u_add(self.bits as u128, rhs.bits as u128, 16);
        Self { bits: w as u16 }
    }

    /// Saturating subtraction.
    pub fn sub(self, rhs: Self) -> (r: Self)
        ensures
            r.bits as int == sat_unsigned(self.bits - rhs.bits, 16),
    {
        proof {
            lemma2_to64();
            lemma2_to64_rest();
        }
        let w = arith::u_sub(self.bits as u128, rhs.bits as u128, 16);
        Self { bits: w as u16 }
    }

    /// Saturating fixed-point multiplication.
    pub fn mul(self, rhs: Self) -> (r: Self)
        ensures
            r.bits as int == mul_sat_unsigned(
                self.bits as nat,
                rhs.bits as nat,
                16,
                13,
            ),
    {
        proof {
            lemma2_to64();
            lemma2_to64_rest();
        }
        let w = arith::u_mul(self.bits as u128, rhs.bits as u128, 16, 13);
        Self { bits: w as u16 }
    }

    /// In-place saturating addition.
    pub fn add_assign(&mut self, rhs: Self)
        ensures
            final(self).bits as int == sat_unsigned(old(self).bits + rhs.bits, 16),
    {
        *self = self.add(rhs);
    }

    /// In-place saturating subtraction.
    pub fn sub_assign(&mut self, rhs: Self)
        ensures
            final(self).bits as int == sat_unsigned(old(self).bits - rhs.bits, 16),
    {
        *self = self.sub(rhs);
    }

    /// In-place saturating multiplication.
    pub fn mul_assign(&mut self, rhs: Self)
        ensures
            final(self).bits as int == mul_sat_unsigned(
                old(self).bits as nat,
                rhs.bits as nat,
                16,
                13,
            ),
    {
        *self = self.mul(rhs);
    }

    /// Value ordering: whether this value is below the other.
    pub fn lt(&self, rhs: &Self) -> (r: bool)
        ensures
            r == (self.bits < rhs.bits),
    {
        self.bits < rhs.bits
    }

    /// Conversion from the 8-bit unsigned certum: the all-ones MAX maps exactly, the value widens losslessly into the added fraction bits.
    pub fn from_uc8(v: uc8) -> (r: Self)
        ensures
            r.bits as nat == convert_unsigned(v.bits as nat, 8, 6, 16, 13),
    {
        proof {
            lemma2_to64();
            lemma2_to64_rest();
        }
        let w = arith::u_convert(v.bits as u128, 8, 6, 16, 13);
        Self { bits: w as u16 }
    }

    /// Conversion from the 32-bit unsigned certum: the all-ones MAX maps exactly, the fraction bits past this width are floored away, out-of-range values saturate.
    pub fn from_uc32(v: uc32) -> (r: Self)
        ensures
            r.bits as nat == convert_unsigned(v.bits as nat, 32, 28, 16, 13),
    {
        proof {
            lemma2_to64();
            lemma2_to64_rest();
        }
        let w = arith::u_convert(v.bits as u128, 32, 28, 16, 13);
        Self { bits: w as u16 }
    }

    /// Conversion from the 64-bit unsigned certum: the all-ones MAX maps exactly, the fraction bits past this width are floored away, out-of-range values saturate.
    pub fn from_uc64(v: uc64) -> (r: Self)
        ensures
            r.bits as nat == convert_unsigned(v.bits as nat, 64, 59, 16, 13),
    {
        proof {
            lemma2_to64();
            lemma2_to64_rest();
        }
        let w = arith::u_convert(v.bits as u128, 64, 59, 16, 13);
        Self { bits: w as u16 }
    }

    /// Conversion from the 128-bit unsigned certum: the all-ones MAX maps exactly, the fraction bits past this width are floored away, out-of-range values saturate.
    pub fn from_uc128(v: uc128) -> (r: Self)
        ensures
            r.bits as nat == convert_unsigned(v.bits as nat, 128, 122, 16, 13),
    {
        proof {
            lemma2_to64();
            lemma2_to64_rest();
            crate::quire::quire256::lemma_pow2_words();
            arith::lemma_split_top(128);
        }
        let w = arith::u_convert(v.bits, 128, 122, 16, 13);
        Self { bits: w as u16 }
    }

    /// Reinterpretation of the signed twin's bits, unchanged.
    pub fn from_c16(v: c16) -> (r: Self)
        ensures
            r.bits == v.bits,
    {
        Self { bits: v.bits }
    }
}

} // verus!
