//! The 64-bit signed certum.

use vstd::prelude::*;
use vstd::arithmetic::power2::{lemma2_to64, lemma2_to64_rest};
use crate::model::{
    sval, sat_signed, neg_sat, mul_sat_signed, convert_signed,
};
use crate::codec::{encode_signed, decode_bits, s_mag, s_is_neg};
use crate::arith;
use crate::codec;
use crate::certum::certum8::c8;
use crate::certum::certum16::c16;
use crate::certum::certum32::c32;
use crate::certum::certum128::c128;
use crate::certum::u_certum64::uc64;

verus! {

/// A 64-bit signed certum: 1 sign bit, 4 integer bits, 59 fraction bits.
#[derive(Copy, Clone, Debug, PartialEq, Eq, Structural)]
#[allow(non_camel_case_types)]
pub struct c64 {
    /// The raw bits of the certum.
    pub bits: u64,
}

impl c64 {
    /// Bits before the binary point, the sign bit included.
    pub const DEC: u64 = 5;

    /// Bits after the binary point.
    pub const FRC: u64 = 59;

    /// One whole unit in grains: 2^FRC.
    pub const FRCPOW: u64 = 0x800000000000000;

    /// Bit pattern of the minimum value.
    pub const MINB: u64 = 0x8000000000000000;

    /// Bit pattern of the maximum value.
    pub const MAXB: u64 = 0x7FFFFFFFFFFFFFFF;

    /// The minimum value: the sign bit alone.
    pub fn min() -> (r: Self)
        ensures
            r.bits == 0x8000000000000000u64,
    {
        Self { bits: 0x8000000000000000 }
    }

    /// The maximum value: every bit but the sign bit.
    pub fn max() -> (r: Self)
        ensures
            r.bits == 0x7FFFFFFFFFFFFFFFu64,
    {
        Self { bits: 0x7FFFFFFFFFFFFFFF }
    }

    /// The grain: the smallest positive step.
    pub fn grain() -> (r: Self)
        ensures
            r.bits == 1u64,
    {
        Self { bits: 1 }
    }

    /// The closest-below approximation of pi at this resolution.
    pub fn pi() -> (r: Self)
        ensures
            r.bits == 0x1921FB54442D1846u64,
    {
        Self { bits: 0x1921FB54442D1846 }
    }

    /// The closest-below approximation of Euler's number at this resolution.
    pub fn e() -> (r: Self)
        ensures
            r.bits == 0x15BF0A8B14576953u64,
    {
        Self { bits: 0x15BF0A8B14576953 }
    }

    /// A new certum from raw bits.
    pub fn of(bits: u64) -> (r: Self)
        ensures
            r.bits == bits,
    {
        Self { bits }
    }

    /// The sign bit in place: the MIN pattern when negative, the MAX pattern
    /// when zero or positive.
    pub fn sign_inverter(&self) -> (r: u64)
        ensures
            r == if self.bits >= 0x8000000000000000 { 0x8000000000000000u64 } else { 0x7FFFFFFFFFFFFFFFu64 },
    {
        if self.bits >= 0x8000000000000000 {
            0x8000000000000000
        } else {
            0x7FFFFFFFFFFFFFFF
        }
    }

    /// The binary sign: 1 when negative, 0 when zero or positive.
    pub fn bin_sign(&self) -> (r: u64)
        ensures
            r == if self.bits >= 0x8000000000000000 { 1u64 } else { 0u64 },
    {
        if self.bits >= 0x8000000000000000 {
            1
        } else {
            0
        }
    }

    /// The scalar sign of the represented value: -1, 0 or 1.
    pub fn sign(&self) -> (r: i8)
        ensures
            r as int == if sval(self.bits as nat, 64) < 0 {
                -1
            } else if sval(self.bits as nat, 64) == 0 {
                0
            } else {
                1int
            },
    {
        proof {
            lemma2_to64();
            lemma2_to64_rest();
        }
        if self.bits == 0 {
            0
        } else if self.bits >= 0x8000000000000000 {
            -1
        } else {
            1
        }
    }

    /// The scalar sign, the integer field right-justified, and the fraction
    /// field left-justified in the word.
    pub fn components(&self) -> (r: (i8, u64, u64))
        ensures
            r.0 as int == if sval(self.bits as nat, 64) < 0 {
                -1
            } else if sval(self.bits as nat, 64) == 0 {
                0
            } else {
                1int
            },
            r.1 as nat == (self.bits as nat % 0x8000000000000000) / 0x800000000000000,
            r.2 as nat == (self.bits as nat % 0x800000000000000) * 32,
    {
        let sgn = self.sign();
        let int_part = (self.bits % 0x8000000000000000) / 0x800000000000000;
        let frc_part = (self.bits % 0x800000000000000) * 32;
        (sgn, int_part, frc_part)
    }

    /// At this width the 64-bit fraction already has the type's resolution:
    /// the value passes through unchanged.
    pub fn u64_round(val: u64) -> (r: u64)
        ensures
            r == val,
    {
        val
    }

    /// The bits reinterpreted as the native signed integer of the same width.
    pub fn as_signed_bits(&self) -> (r: i64)
        ensures
            r as int == sval(self.bits as nat, 64),
    {
        proof {
            lemma2_to64();
            lemma2_to64_rest();
        }
        if self.bits < 0x8000000000000000 {
            self.bits as i64
        } else {
            (((self.bits - 0x8000000000000000) as i64) - 9223372036854775807) - 1
        }
    }

    /// Encode the double with stored bits `fb`: round half-up in grains and
    /// saturate at the bounds; infinities map to the bounds, NaN to zero.
    pub fn from_f64_bits(fb: u64) -> (r: Self)
        ensures
            r.bits as nat == encode_signed(fb, 64, 59),
    {
        proof {
            lemma2_to64();
            lemma2_to64_rest();
        }
        let w = codec::encode_signed_core(fb, 64, 59);
        Self { bits: w as u64 }
    }

    /// The stored bits of the nearest double, ties to even.
    pub fn to_f64_bits(&self) -> (r: u64)
        ensures
            r as nat == decode_bits(
                s_is_neg(self.bits as nat, 64),
                s_mag(self.bits as nat, 64),
                59,
            ),
    {
        proof {
            lemma2_to64();
            lemma2_to64_rest();
        }
        let neg = self.bits >= 0x8000000000000000;
        let mag: u64 = if neg {
            (u64::MAX - self.bits) + 1
        } else {
            self.bits
        };
        codec::decode_core(neg, mag, 59)
    }

    /// Saturating negation; negating MIN yields MAX.
    pub fn neg(self) -> (r: Self)
        ensures
            sval(r.bits as nat, 64) == neg_sat(sval(self.bits as nat, 64), 64),
    {
        proof {
            lemma2_to64();
            lemma2_to64_rest();
        }
        let w = arith::s_neg(self.bits as u128, 64);
        Self { bits: w as u64 }
    }

    /// Saturating addition.
    pub fn add(self, rhs: Self) -> (r: Self)
        ensures
            sval(r.bits as nat, 64) == sat_signed(
                sval(self.bits as nat, 64) + sval(rhs.bits as nat, 64),
                64,
            ),
    {
        proof {
            lemma2_to64();
            lemma2_to64_rest();
        }
        let w = arith::s_add(self.bits as u128, rhs.bits as u128, 64);
        Self { bits: w as u64 }
    }

    /// Saturating subtraction.
    pub fn sub(self, rhs: Self) -> (r: Self)
        ensures
            sval(r.bits as nat, 64) == sat_signed(
                sval(self.bits as nat, 64) - sval(rhs.bits as nat, 64),
                64,
            ),
    {
        proof {
            lemma2_to64();
            lemma2_to64_rest();
        }
        let w = arith::s_sub(self.bits as u128, rhs.bits as u128, 64);
        Self { bits: w as u64 }
    }

    /// Saturating fixed-point multiplication.
    pub fn mul(self, rhs: Self) -> (r: Self)
        ensures
            sval(r.bits as nat, 64) == mul_sat_signed(
                sval(self.bits as nat, 64),
                sval(rhs.bits as nat, 64),
                64,
                59,
            ),
    {
        proof {
            lemma2_to64();
            lemma2_to64_rest();
        }
        let w = arith::s_mul(self.bits as u128, rhs.bits as u128, 64, 59);
        Self { bits: w as u64 }
    }

    /// In-place saturating addition.
    pub fn add_assign(&mut self, rhs: Self)
        ensures
            sval(final(self).bits as nat, 64) == sat_signed(
                sval(old(self).bits as nat, 64) + sval(rhs.bits as nat, 64),
                64,
            ),
    {
        *self = self.add(rhs);
    }

    /// In-place saturating subtraction.
    pub fn sub_assign(&mut self, rhs: Self)
        ensures
            sval(final(self).bits as nat, 64) == sat_signed(
                sval(old(self).bits as nat, 64) - sval(rhs.bits as nat, 64),
                64,
            ),
    {
        *self = self.sub(rhs);
    }

    /// In-place saturating multiplication.
    pub fn mul_assign(&mut self, rhs: Self)
        ensures
            sval(final(self).bits as nat, 64) == mul_sat_signed(
                sval(old(self).bits as nat, 64),
                sval(rhs.bits as nat, 64),
                64,
                59,
            ),
    {
        *self = self.mul(rhs);
    }

    /// Value ordering: whether this value is below the other.
    pub fn lt(&self, rhs: &Self) -> (r: bool)
        ensures
            r == (sval(self.bits as nat, 64) < sval(rhs.bits as nat, 64)),
    {
        self.as_signed_bits() < rhs.as_signed_bits()
    }

    /// Conversion from the 8-bit signed certum: MIN and MAX map exactly, the value widens losslessly into the added fraction bits.
    pub fn from_c8(v: c8) -> (r: Self)
        ensures
            r.bits as nat == convert_signed(v.bits as nat, 8, 6, 64, 59),
    {
        proof {
            lemma2_to64();
            lemma2_to64_rest();
        }
        let w = arith::s_convert(v.bits as u128, 8, 6, 64, 59);
        Self { bits: w as u64 }
    }

    /// Conversion from the 16-bit signed certum: MIN and MAX map exactly, the value widens losslessly into the added fraction bits.
    pub fn from_c16(v: c16) -> (r: Self)
        ensures
            r.bits as nat == convert_signed(v.bits as nat, 16, 13, 64, 59),
    {
        proof {
            lemma2_to64();
            lemma2_to64_rest();
        }
        let w = arith::s_convert(v.bits as u128, 16, 13, 64, 59);
        Self { bits: w as u64 }
    }

    /// Conversion from the 32-bit signed certum: MIN and MAX map exactly, the value widens losslessly into the added fraction bits.
    pub fn from_c32(v: c32) -> (r: Self)
        ensures
            r.bits as nat == convert_signed(v.bits as nat, 32, 28, 64, 59),
    {
        proof {
            lemma2_to64();
            lemma2_to64_rest();
        }
        let w = arith::s_convert(v.bits as u128, 32, 28, 64, 59);
        Self { bits: w as u64 }
    }

    /// Conversion from the 128-bit signed certum: MIN and MAX map exactly, the fraction bits past this width are floored away, out-of-range values saturate.
    pub fn from_c128(v: c128) -> (r: Self)
        ensures
            r.bits as nat == convert_signed(v.bits as nat, 128, 122, 64, 59),
    {
        proof {
            lemma2_to64();
            lemma2_to64_rest();
            crate::quire::quire256::lemma_pow2_words();
            arith::lemma_split_top(128);
        }
        let w = arith::s_convert(v.bits, 128, 122, 64, 59);
        Self { bits: w as u64 }
    }

    /// Reinterpretation of the unsigned twin's bits, unchanged.
    pub fn from_uc64(v: uc64) -> (r: Self)
        ensures
            r.bits == v.bits,
    {
        Self { bits: v.bits }
    }
}

} // verus!
