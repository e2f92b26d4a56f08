//! The 128-bit signed certum.

use vstd::prelude::*;
use vstd::arithmetic::power2::{lemma2_to64, lemma2_to64_rest};
use crate::model::{
    sval, sat_signed, neg_sat, mul_sat_signed, convert_signed,
};
use crate::codec::{encode_signed, decode_bits, s_mag, s_is_neg};
use crate::arith;
use crate::codec;
use crate::certum::certum8::c8;
use crate::certum::certum16::c16;
use crate::certum::certum32::c32;
use crate::certum::certum64::c64;
use crate::certum::u_certum128::uc128;

verus! {

/// A 128-bit signed certum: 1 sign bit, 5 integer bits, 122 fraction bits.
#[derive(Copy, Clone, Debug, PartialEq, Eq, Structural)]
#[allow(non_camel_case_types)]
pub struct c128 {
    /// The raw bits of the certum.
    pub bits: u128,
}

impl c128 {
    /// Bits before the binary point, the sign bit included.
    pub const DEC: u128 = 6;

    /// Bits after the binary point.
    pub const FRC: u128 = 122;

    /// One whole unit in grains: 2^FRC.
    pub const FRCPOW: u128 = 0x4000000000000000000000000000000;

    /// Bit pattern of the minimum value.
    pub const MINB: u128 = 0x80000000000000000000000000000000;

    /// Bit pattern of the maximum value.
    pub const MAXB: u128 = 0x7FFFFFFFFFFFFFFFFFFFFFFFFFFFFFFF;

    /// The minimum value: the sign bit alone.
    pub fn min() -> (r: Self)
        ensures
            r.bits == 0x80000000000000000000000000000000u128,
    {
        Self { bits: 0x80000000000000000000000000000000 }
    }

    /// The maximum value: every bit but the sign bit.
    pub fn max() -> (r: Self)
        ensures
            r.bits == 0x7FFFFFFFFFFFFFFFFFFFFFFFFFFFFFFFu128,
    {
        Self { bits: 0x7FFFFFFFFFFFFFFFFFFFFFFFFFFFFFFF }
    }

    /// The grain: the smallest positive step.
    pub fn grain() -> (r: Self)
        ensures
            r.bits == 1u128,
    {
        Self { bits: 1 }
    }

    /// The closest-below approximation of pi at this resolution.
    pub fn pi() -> (r: Self)
        ensures
            r.bits == 0xC90FDAA22168C234C4C6628B80DC1CDu128,
    {
        Self { bits: 0xC90FDAA22168C234C4C6628B80DC1CD }
    }

    /// The closest-below approximation of Euler's number at this resolution.
    pub fn e() -> (r: Self)
        ensures
            r.bits == 0xADF85458A2BB4A9AAFDC5620273D3CFu128,
    {
        Self { bits: 0xADF85458A2BB4A9AAFDC5620273D3CF }
    }

    /// A new certum from raw bits.
    pub fn of(bits: u128) -> (r: Self)
        ensures
            r.bits == bits,
    {
        Self { bits }
    }

    /// The sign bit in place: the MIN pattern when negative, the MAX pattern
    /// when zero or positive.
    pub fn sign_inverter(&self) -> (r: u128)
        ensures
            r == if self.bits >= 0x80000000000000000000000000000000 { 0x80000000000000000000000000000000u128 } else { 0x7FFFFFFFFFFFFFFFFFFFFFFFFFFFFFFFu128 },
    {
        if self.bits >= 0x80000000000000000000000000000000 {
            0x80000000000000000000000000000000
        } else {
            0x7FFFFFFFFFFFFFFFFFFFFFFFFFFFFFFF
        }
    }

    /// The binary sign: 1 when negative, 0 when zero or positive.
    pub fn bin_sign(&self) -> (r: u128)
        ensures
            r == if self.bits >= 0x80000000000000000000000000000000 { 1u128 } else { 0u128 },
    {
        if self.bits >= 0x80000000000000000000000000000000 {
            1
        } else {
            0
        }
    }

    /// The scalar sign of the represented value: -1, 0 or 1.
    pub fn sign(&self) -> (r: i8)
        ensures
            r as int == if sval(self.bits as nat, 128) < 0 {
                -1
            } else if sval(self.bits as nat, 128) == 0 {
                0
            } else {
                1int
            },
    {
        proof {
            lemma2_to64();
            lemma2_to64_rest();
            crate::quire::quire256::lemma_pow2_words();
            arith::lemma_split_top(128);
        }
        if self.bits == 0 {
            0
        } else if self.bits >= 0x80000000000000000000000000000000 {
            -1
        } else {
            1
        }
    }

    /// The scalar sign, the integer field right-justified, and the fraction
    /// field left-justified in the word.
    pub fn components(&self) -> (r: (i8, u128, u128))
        ensures
            r.0 as int == if sval(self.bits as nat, 128) < 0 {
                -1
            } else if sval(self.bits as nat, 128) == 0 {
                0
            } else {
                1int
            },
            r.1 as nat == (self.bits as nat % 0x80000000000000000000000000000000) / 0x4000000000000000000000000000000,
            r.2 as nat == (self.bits as nat % 0x4000000000000000000000000000000) * 64,
    {
        let sgn = self.sign();
        let int_part = (self.bits % 0x80000000000000000000000000000000) / 0x4000000000000000000000000000000;
        let frc_part = (self.bits % 0x4000000000000000000000000000000) * 64;
        (sgn, int_part, frc_part)
    }

    /// At this width the fraction already has the type's resolution: the
    /// value passes through unchanged.
    pub fn u64_round(val: u128) -> (r: u128)
        ensures
            r == val,
    {
        val
    }

    /// The bits reinterpreted as the native signed integer of the same width.
    pub fn as_signed_bits(&self) -> (r: i128)
        ensures
            r as int == sval(self.bits as nat, 128),
    {
        proof {
            lemma2_to64();
            lemma2_to64_rest();
            crate::quire::quire256::lemma_pow2_words();
            arith::lemma_split_top(128);
        }
        if self.bits < 0x80000000000000000000000000000000 {
            self.bits as i128
        } else {
            (((self.bits - 0x80000000000000000000000000000000) as i128) - 170141183460469231731687303715884105727) - 1
        }
    }

    /// Encode the double with stored bits `fb`.  At this width the double has
    /// far less precision than the certum, so the value is encoded at 64-bit
    /// resolution first and then widened, as the layout family defines it.
    pub fn from_f64_bits(fb: u64) -> (r: Self)
        ensures
            r.bits as nat == convert_signed(encode_signed(fb, 64, 59), 64, 59, 128, 122),
    {
        proof {
            lemma2_to64();
            lemma2_to64_rest();
            crate::quire::quire256::lemma_pow2_words();
            arith::lemma_split_top(128);
        }
        let w = codec::encode_signed_core(fb, 64, 59);
        let b = arith::s_convert(w, 64, 59, 128, 122);
        Self { bits: b }
    }

    /// The stored bits of the nearest double.  The conversion narrows to the
    /// 64-bit layout first; precision past the 53rd significant bit is lost
    /// by the nature of a double.
    pub fn to_f64_bits(&self) -> (r: u64)
        ensures
            r as nat == decode_bits(
                s_is_neg(convert_signed(self.bits as nat, 128, 122, 64, 59), 64),
                s_mag(convert_signed(self.bits as nat, 128, 122, 64, 59), 64),
                59,
            ),
    {
        proof {
            lemma2_to64();
            lemma2_to64_rest();
            crate::quire::quire256::lemma_pow2_words();
            arith::lemma_split_top(128);
        }
        let w = arith::s_convert(self.bits, 128, 122, 64, 59);
        let c = w as u64;
        let neg = c >= 0x8000000000000000;
        let mag: u64 = if neg {
            (u64::MAX - c) + 1
        } else {
            c
        };
        codec::decode_core(neg, mag, 59)
    }

    /// Saturating negation; negating MIN yields MAX.
    pub fn neg(self) -> (r: Self)
        ensures
            sval(r.bits as nat, 128) == neg_sat(sval(self.bits as nat, 128), 128),
    {
        proof {
            lemma2_to64();
            lemma2_to64_rest();
            crate::quire::quire256::lemma_pow2_words();
            arith::lemma_split_top(128);
        }
        let w = arith::s_neg(self.bits, 128);
        Self { bits: w }
    }

    /// Saturating addition.
    pub fn add(self, rhs: Self) -> (r: Self)
        ensures
            sval(r.bits as nat, 128) == sat_signed(
                sval(self.bits as nat, 128) + sval(rhs.bits as nat, 128),
                128,
            ),
    {
        proof {
            lemma2_to64();
            lemma2_to64_rest();
            crate::quire::quire256::lemma_pow2_words();
            arith::lemma_split_top(128);
        }
        let w = arith::s_add(self.bits, rhs.bits, 128);
        Self { bits: w }
    }

    /// Saturating subtraction.
    pub fn sub(self, rhs: Self) -> (r: Self)
        ensures
            sval(r.bits as nat, 128) == sat_signed(
                sval(self.bits as nat, 128) - sval(rhs.bits as nat, 128),
                128,
            ),
    {
        proof {
            lemma2_to64();
            lemma2_to64_rest();
            crate::quire::quire256::lemma_pow2_words();
            arith::lemma_split_top(128);
        }
        let w = arith::s_sub(self.bits, rhs.bits, 128);
        Self { bits: w }
    }

    /// Saturating fixed-point multiplication, through the 256-bit wide
    /// integer: the double-width product is exact before rescaling.
    pub fn mul(self, rhs: Self) -> (r: Self)
        ensures
            sval(r.bits as nat, 128) == mul_sat_signed(
                sval(self.bits as nat, 128),
                sval(rhs.bits as nat, 128),
                128,
                122,
            ),
    {
        proof {
            lemma2_to64();
            lemma2_to64_rest();
            crate::quire::quire256::lemma_pow2_words();
            arith::lemma_split_top(128);
        }
        let w = arith::s_mul_128(self.bits, rhs.bits, 122);
        Self { bits: w }
    }

    /// In-place saturating addition.
    pub fn add_assign(&mut self, rhs: Self)
        ensures
            sval(final(self).bits as nat, 128) == sat_signed(
                sval(old(self).bits as nat, 128) + sval(rhs.bits as nat, 128),
                128,
            ),
    {
        *self = self.add(rhs);
    }

    /// In-place saturating subtraction.
    pub fn sub_assign(&mut self, rhs: Self)
        ensures
            sval(final(self).bits as nat, 128) == sat_signed(
                sval(old(self).bits as nat, 128) - sval(rhs.bits as nat, 128),
                128,
            ),
    {
        *self = self.sub(rhs);
    }

    /// In-place saturating multiplication.
    pub fn mul_assign(&mut self, rhs: Self)
        ensures
            sval(final(self).bits as nat, 128) == mul_sat_signed(
                sval(old(self).bits as nat, 128),
                sval(rhs.bits as nat, 128),
                128,
                122,
            ),
    {
        *self = self.mul(rhs);
    }

    /// Value ordering: whether this value is below the other.
    pub fn lt(&self, rhs: &Self) -> (r: bool)
        ensures
            r == (sval(self.bits as nat, 128) < sval(rhs.bits as nat, 128)),
    {
        self.as_signed_bits() < rhs.as_signed_bits()
    }

    /// Conversion from the 8-bit signed certum: MIN and MAX map exactly, the value widens losslessly into the added fraction bits.
    pub fn from_c8(v: c8) -> (r: Self)
        ensures
            r.bits as nat == convert_signed(v.bits as nat, 8, 6, 128, 122),
    {
        proof {
            lemma2_to64();
            lemma2_to64_rest();
            crate::quire::quire256::lemma_pow2_words();
            arith::lemma_split_top(128);
        }
        let w = arith::s_convert(v.bits as u128, 8, 6, 128, 122);
        Self { bits: w }
    }

    /// Conversion from the 16-bit signed certum: MIN and MAX map exactly, the value widens losslessly into the added fraction bits.
    pub fn from_c16(v: c16) -> (r: Self)
        ensures
            r.bits as nat == convert_signed(v.bits as nat, 16, 13, 128, 122),
    {
        proof {
            lemma2_to64();
            lemma2_to64_rest();
            crate::quire::quire256::lemma_pow2_words();
            arith::lemma_split_top(128);
        }
        let w = arith::s_convert(v.bits as u128, 16, 13, 128, 122);
        Self { bits: w }
    }

    /// Conversion from the 32-bit signed certum: MIN and MAX map exactly, the value widens losslessly into the added fraction bits.
    pub fn from_c32(v: c32) -> (r: Self)
        ensures
            r.bits as nat == convert_signed(v.bits as nat, 32, 28, 128, 122),
    {
        proof {
            lemma2_to64();
            lemma2_to64_rest();
            crate::quire::quire256::lemma_pow2_words();
            arith::lemma_split_top(128);
        }
        let w = arith::s_convert(v.bits as u128, 32, 28, 128, 122);
        Self { bits: w }
    }

    /// Conversion from the 64-bit signed certum: MIN and MAX map exactly, the value widens losslessly into the added fraction bits.
    pub fn from_c64(v: c64) -> (r: Self)
        ensures
            r.bits as nat == convert_signed(v.bits as nat, 64, 59, 128, 122),
    {
        proof {
            lemma2_to64();
            lemma2_to64_rest();
            crate::quire::quire256::lemma_pow2_words();
            arith::lemma_split_top(128);
        }
        let w = arith::s_convert(v.bits as u128, 64, 59, 128, 122);
        Self { bits: w }
    }

    /// Reinterpretation of the unsigned twin's bits, unchanged.
    pub fn from_uc128(v: uc128) -> (r: Self)
        ensures
            r.bits == v.bits,
    {
        Self { bits: v.bits }
    }
}

} // verus!
