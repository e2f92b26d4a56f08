//! The 128-bit unsigned certum.

use vstd::prelude::*;
use vstd::arithmetic::power2::{lemma2_to64, lemma2_to64_rest};
use crate::model::{sat_unsigned, mul_sat_unsigned, convert_unsigned};
use crate::codec::{encode_unsigned, decode_bits};
use crate::arith;
use crate::codec;
use crate::certum::u_certum8::uc8;
use crate::certum::u_certum16::uc16;
use crate::certum::u_certum32::uc32;
use crate::certum::u_certum64::uc64;
use crate::certum::certum128::c128;

verus! {

/// A 128-bit unsigned certum: 6 integer bits, 122 fraction bits.
#[derive(Copy, Clone, Debug, PartialEq, Eq, Structural)]
#[allow(non_camel_case_types)]
pub struct uc128 {
    /// The raw bits of the certum.
    pub bits: u128,
}

impl uc128 {
    /// Bits before the binary point.
    pub const DEC: u128 = 6;

    /// Bits after the binary point.
    pub const FRC: u128 = 122;

    /// One whole unit in grains: 2^FRC.
    pub const FRCPOW: u128 = 0x4000000000000000000000000000000;

    /// The minimum value: zero.
    pub fn min() -> (r: Self)
        ensures
            r.bits == 0u128,
    {
        Self { bits: 0 }
    }

    /// The maximum value: all bits set.
    pub fn max() -> (r: Self)
        ensures
            r.bits == 0xFFFFFFFFFFFFFFFFFFFFFFFFFFFFFFFFu128,
    {
        Self { bits: 0xFFFFFFFFFFFFFFFFFFFFFFFFFFFFFFFF }
    }

    /// The grain: the smallest positive step.
    pub fn grain() -> (r: Self)
        ensures
            r.bits == 1u128,
    {
        Self { bits: 1 }
    }

    /// The closest-below approximation of pi at this resolution.
    pub fn pi() -> (r: Self)
        ensures
            r.bits == 0xC90FDAA22168C234C4C6628B80DC1CDu128,
    {
        Self { bits: 0xC90FDAA22168C234C4C6628B80DC1CD }
    }

    /// The closest-below approximation of Euler's number at this resolution.
    pub fn e() -> (r: Self)
        ensures
            r.bits == 0xADF85458A2BB4A9AAFDC5620273D3CFu128,
    {
        Self { bits: 0xADF85458A2BB4A9AAFDC5620273D3CF }
    }

    /// A new certum from raw bits.
    pub fn of(bits: u128) -> (r: Self)
        ensures
            r.bits == bits,
    {
        Self { bits }
    }

    /// The integer field right-justified, and the fraction field
    /// left-justified in the word.
    pub fn components(&self) -> (r: (u128, u128))
        ensures
            r.0 as nat == self.bits as nat / 0x4000000000000000000000000000000,
            r.1 as nat == (self.bits as nat % 0x4000000000000000000000000000000) * 64,
    {
        let int_part = self.bits / 0x4000000000000000000000000000000;
        let frc_part = (self.bits % 0x4000000000000000000000000000000) * 64;
        (int_part, frc_part)
    }

    /// At this width the fraction already has the type's resolution: the
    /// value passes through unchanged.
    pub fn u64_round(val: u128) -> (r: u128)
        ensures
            r == val,
    {
        val
    }

    /// Encode the double with stored bits `fb`.  At this width the double has
    /// far less precision than the certum, so the value is encoded at 64-bit
    /// resolution first and then widened, as the layout family defines it.
    pub fn from_f64_bits(fb: u64) -> (r: Self)
        ensures
            r.bits as nat == convert_unsigned(encode_unsigned(fb, 64, 59), 64, 59, 128, 122),
    {
        proof {
            lemma2_to64();
            lemma2_to64_rest();
            crate::quire::quire256::lemma_pow2_words();
            arith::lemma_split_top(128);
        }
        let w = codec::encode_unsigned_core(fb, 64, 59);
        let b = arith::u_convert(w, 64, 59, 128, 122);
        Self { bits: b }
    }

    /// The stored bits of the nearest double.  The conversion narrows to the
    /// 64-bit layout first; precision past the 53rd significant bit is lost
    /// by the nature of a double.
    pub fn to_f64_bits(&self) -> (r: u64)
        ensures
            r as nat == decode_bits(
                false,
                convert_unsigned(self.bits as nat, 128, 122, 64, 59),
                59,
            ),
    {
        proof {
            lemma2_to64();
            lemma2_to64_rest();
            crate::quire::quire256::lemma_pow2_words();
            arith::lemma_split_top(128);
        }
        let w = arith::u_convert(self.bits, 128, 122, 64, 59);
        codec::decode_core(false, w as u64, 59)
    }

    /// Saturating addition.
    pub fn add(self, rhs: Self) -> (r: Self)
        ensures
            r.bits as int == sat_unsigned(self.bits + rhs.bits, 128),
    {
        proof {
            lemma2_to64();
            lemma2_to64_rest();
            crate::quire::quire256::lemma_pow2_words();
            arith::lemma_split_top(128);
        }
        let w = arith::u_add(self.bits, rhs.bits, 128);
        Self { bits: w }
    }

    /// Saturating subtraction.
    pub fn sub(self, rhs: Self) -> (r: Self)
        ensures
            r.bits as int == sat_unsigned(self.bits - rhs.bits, 128),
    {
        proof {
            lemma2_to64();
            lemma2_to64_rest();
            crate::quire::quire256::lemma_pow2_words();
            arith::lemma_split_top(128);
        }
        let w = arith::u_sub(self.bits, rhs.bits, 128);
        Self { bits: w }
    }

    /// Saturating fixed-point multiplication, through the 256-bit wide
    /// integer: the double-width product is exact before rescaling.
    pub fn mul(self, rhs: Self) -> (r: Self)
        ensures
            r.bits as int == mul_sat_unsigned(
                self.bits as nat,
                rhs.bits as nat,
                128,
                122,
            ),
    {
        proof {
            lemma2_to64();
            lemma2_to64_rest();
            crate::quire::quire256::lemma_pow2_words();
            arith::lemma_split_top(128);
        }
        let w = arith::u_mul_128(self.bits, rhs.bits, 122);
        Self { bits: w }
    }

    /// In-place saturating addition.
    pub fn add_assign(&mut self, rhs: Self)
        ensures
            final(self).bits as int == sat_unsigned(old(self).bits + rhs.bits, 128),
    {
        *self = self.add(rhs);
    }

    /// In-place saturating subtraction.
    pub fn sub_assign(&mut self, rhs: Self)
        ensures
            final(self).bits as int == sat_unsigned(old(self).bits - rhs.bits, 128),
    {
        *self = self.sub(rhs);
    }

    /// In-place saturating multiplication.
    pub fn mul_assign(&mut self, rhs: Self)
        ensures
            final(self).bits as int == mul_sat_unsigned(
                old(self).bits as nat,
                rhs.bits as nat,
                128,
                122,
            ),
    {
        *self = self.mul(rhs);
    }

    /// Value ordering: whether this value is below the other.
    pub fn lt(&self, rhs: &Self) -> (r: bool)
        ensures
            r == (self.bits < rhs.bits),
    {
        self.bits < rhs.bits
    }

    /// Conversion from the 8-bit unsigned certum: the all-ones MAX maps exactly, the value widens losslessly into the added fraction bits.
    pub fn from_uc8(v: uc8) -> (r: Self)
        ensures
            r.bits as nat == convert_unsigned(v.bits as nat, 8, 6, 128, 122),
    {
        proof {
            lemma2_to64();
            lemma2_to64_rest();
            crate::quire::quire256::lemma_pow2_words();
            arith::lemma_split_top(128);
        }
        let w = arith::u_convert(v.bits as u128, 8, 6, 128, 122);
        Self { bits: w }
    }

    /// Conversion from the 16-bit unsigned certum: the all-ones MAX maps exactly, the value widens losslessly into the added fraction bits.
    pub fn from_uc16(v: uc16) -> (r: Self)
        ensures
            r.bits as nat == convert_unsigned(v.bits as nat, 16, 13, 128, 122),
    {
        proof {
            lemma2_to64();
            lemma2_to64_rest();
            crate::quire::quire256::lemma_pow2_words();
            arith::lemma_split_top(128);
        }
        let w = arith::u_convert(v.bits as u128, 16, 13, 128, 122);
        Self { bits: w }
    }

    /// Conversion from the 32-bit unsigned certum: the all-ones MAX maps exactly, the value widens losslessly into the added fraction bits.
    pub fn from_uc32(v: uc32) -> (r: Self)
        ensures
            r.bits as nat == convert_unsigned(v.bits as nat, 32, 28, 128, 122),
    {
        proof {
            lemma2_to64();
            lemma2_to64_rest();
            crate::quire::quire256::lemma_pow2_words();
            arith::lemma_split_top(128);
        }
        let w = arith::u_convert(v.bits as u128, 32, 28, 128, 122);
        Self { bits: w }
    }

    /// Conversion from the 64-bit unsigned certum: the all-ones MAX maps exactly, the value widens losslessly into the added fraction bits.
    pub fn from_uc64(v: uc64) -> (r: Self)
        ensures
            r.bits as nat == convert_unsigned(v.bits as nat, 64, 59, 128, 122),
    {
        proof {
            lemma2_to64();
            lemma2_to64_rest();
            crate::quire::quire256::lemma_pow2_words();
            arith::lemma_split_top(128);
        }
        let w = arith::u_convert(v.bits as u128, 64, 59, 128, 122);
        Self { bits: w }
    }

    /// Reinterpretation of the signed twin's bits, unchanged.
    pub fn from_c128(v: c128) -> (r: Self)
        ensures
            r.bits == v.bits,
    {
        Self { bits: v.bits }
    }
}

} // verus!
