//! The 16-bit signed certum.

use vstd::prelude::*;
use vstd::arithmetic::power2::{lemma2_to64, lemma2_to64_rest};
use crate::model::{
    sval, sat_signed, neg_sat, mul_sat_signed, convert_signed,
};
use crate::codec::{encode_signed, decode_bits, s_mag, s_is_neg};
use crate::arith;
use crate::codec;
use crate::certum::certum8::c8;
use crate::certum::certum32::c32;
use crate::certum::certum64::c64;
use crate::certum::certum128::c128;
use crate::certum::u_certum16::uc16;

verus! {

/// A 16-bit signed certum: 1 sign bit, 2 integer bits, 13 fraction bits.
#[derive(Copy, Clone, Debug, PartialEq, Eq, Structural)]
#[allow(non_camel_case_types)]
pub struct c16 {
    /// The raw bits of the certum.
    pub bits: u16,
}

impl c16 {
    /// Bits before the binary point, the sign bit included.
    pub const DEC: u16 = 3;

    /// Bits after the binary point.
    pub const FRC: u16 = 13;

    /// One whole unit in grains: 2^FRC.
    pub const FRCPOW: u16 = 0x2000;

    /// Bit pattern of the minimum value.
    pub const MINB: u16 = 0x8000;

    /// Bit pattern of the maximum value.
    pub const MAXB: u16 = 0x7FFF;

    /// The minimum value: the sign bit alone.
    pub fn min() -> (r: Self)
        ensures
            r.bits == 0x8000u16,
    {
        Self { bits: 0x8000 }
    }

    /// The maximum value: every bit but the sign bit.
    pub fn max() -> (r: Self)
        ensures
            r.bits == 0x7FFFu16,
    {
        Self { bits: 0x7FFF }
    }

    /// The grain: the smallest positive step.
    pub fn grain() -> (r: Self)
        ensures
            r.bits == 1u16,
    {
        Self { bits: 1 }
    }

    /// The closest-below approximation of pi at this resolution.
    pub fn pi() -> (r: Self)
        ensures
            r.bits == 0x6487u16,
    {
        Self { bits: 0x6487 }
    }

    /// The closest-below approximation of Euler's number at this resolution.
    pub fn e() -> (r: Self)
        ensures
            r.bits == 0x56FCu16,
    {
        Self { bits: 0x56FC }
    }

    /// A new certum from raw bits.
    pub fn of(bits: u16) -> (r: Self)
        ensures
            r.bits == bits,
    {
        Self { bits }
    }

    /// The sign bit in place: the MIN pattern when negative, the MAX pattern
    /// when zero or positive.
    pub fn sign_inverter(&self) -> (r: u16)
        ensures
            r == if self.bits >= 0x8000 { 0x8000u16 } else { 0x7FFFu16 },
    {
        if self.bits >= 0x8000 {
            0x8000
        } else {
            0x7FFF
        }
    }

    /// The binary sign: 1 when negative, 0 when zero or positive.
    pub fn bin_sign(&self) -> (r: u16)
        ensures
            r == if self.bits >= 0x8000 { 1u16 } else { 0u16 },
    {
        if self.bits >= 0x8000 {
            1
        } else {
            0
        }
    }

    /// The scalar sign of the represented value: -1, 0 or 1.
    pub fn sign(&self) -> (r: i8)
        ensures
            r as int == if sval(self.bits as nat, 16) < 0 {
                -1
            } else if sval(self.bits as nat, 16) == 0 {
                0
            } else {
                1int
            },
    {
        proof {
            lemma2_to64();
            lemma2_to64_rest();
        }
        if self.bits == 0 {
            0
        } else if self.bits >= 0x8000 {
            -1
        } else {
            1
        }
    }

    /// The scalar sign, the integer field right-justified, and the fraction
    /// field left-justified in the word.
    pub fn components(&self) -> (r: (i8, u16, u16))
        ensures
            r.0 as int == if sval(self.bits as nat, 16) < 0 {
                -1
            } else if sval(self.bits as nat, 16) == 0 {
                0
            } else {
                1int
            },
            r.1 as nat == (self.bits as nat % 0x8000) / 0x2000,
            r.2 as nat == (self.bits as nat % 0x2000) * 8,
    {
        let sgn = self.sign();
        let int_part = (self.bits % 0x8000) / 0x2000;
        let frc_part = (self.bits % 0x2000) * 8;
        (sgn, int_part, frc_part)
    }

    /// Round a left-justified 64-bit fraction to the width of these bits,
    /// half up.
    pub fn u64_round(val: u64) -> (r: u16)
        requires
            val <= 0xFFFF7FFFFFFFFFFF,
        ensures
            r as nat == (val + 0x800000000000) as nat / 0x1000000000000,
    {
        ((val + 0x800000000000) / 0x1000000000000) as u16
    }

    /// The bits reinterpreted as the native signed integer of the same width.
    pub fn as_signed_bits(&self) -> (r: i16)
        ensures
            r as int == sval(self.bits as nat, 16),
    {
        proof {
            lemma2_to64();
            lemma2_to64_rest();
        }
        if self.bits < 0x8000 {
            self.bits as i16
        } else {
            (((self.bits - 0x8000) as i16) - 32767) - 1
        }
    }

    /// Encode the double with stored bits `fb`: round half-up in grains and
    /// saturate at the bounds; infinities map to the bounds, NaN to zero.
    pub fn from_f64_bits(fb: u64) -> (r: Self)
        ensures
            r.bits as nat == encode_signed(fb, 16, 13),
    {
        proof {
            lemma2_to64();
            lemma2_to64_rest();
        }
        let w = codec::encode_signed_core(fb, 16, 13);
        Self { bits: w as u16 }
    }

    /// The stored bits of the nearest double, ties to even.
    pub fn to_f64_bits(&self) -> (r: u64)
        ensures
            r as nat == decode_bits(
                s_is_neg(self.bits as nat, 16),
                s_mag(self.bits as nat, 16),
                13,
            ),
    {
        proof {
            lemma2_to64();
            lemma2_to64_rest();
        }
        let neg = self.bits >= 0x8000;
        let mag: u64 = if neg {
            0x10000 - self.bits as u64
        } else {
            self.bits as u64
        };
        codec::decode_core(neg, mag, 13)
    }

    /// Saturating negation; negating MIN yields MAX.
    pub fn neg(self) -> (r: Self)
        ensures
            sval(r.bits as nat, 16) == neg_sat(sval(self.bits as nat, 16), 16),
    {
        proof {
            lemma2_to64();
            lemma2_to64_rest();
        }
        let w = arith::s_neg(self.bits as u128, 16);
        Self { bits: w as u16 }
    }

    /// Saturating addition.
    pub fn add(self, rhs: Self) -> (r: Self)
        ensures
            sval(r.bits as nat, 16) == sat_signed(
                sval(self.bits as nat, 16) + sval(rhs.bits as nat, 16),
                16,
            ),
    {
        proof {
            lemma2_to64();
            lemma2_to64_rest();
        }
        let w = arith::s_add(self.bits as u128, rhs.bits as u128, 16);
        Self { bits: w as u16 }
    }

    /// Saturating subtraction.
    pub fn sub(self, rhs: Self) -> (r: Self)
        ensures
            sval(r.bits as nat, 16) == sat_signed(
                sval(self.bits as nat, 16) - sval(rhs.bits as nat, 16),
                16,
            ),
    {
        proof {
            lemma2_to64();
            lemma2_to64_rest();
        }
        let w = arith::s_sub(self.bits as u128, rhs.bits as u128, 16);
        Self { bits: w as u16 }
    }

    /// Saturating fixed-point multiplication.
    pub fn mul(self, rhs: Self) -> (r: Self)
        ensures
            sval(r.bits as nat, 16) == mul_sat_signed(
                sval(self.bits as nat, 16),
                sval(rhs.bits as nat, 16),
                16,
                13,
            ),
    {
        proof {
            lemma2_to64();
            lemma2_to64_rest();
        }
        let w = arith::s_mul(self.bits as u128, rhs.bits as u128, 16, 13);
        Self { bits: w as u16 }
    }

    /// In-place saturating addition.
    pub fn add_assign(&mut self, rhs: Self)
        ensures
            sval(final(self).bits as nat, 16) == sat_signed(
                sval(old(self).bits as nat, 16) + sval(rhs.bits as nat, 16),
                16,
            ),
    {
        *self = self.add(rhs);
    }

    /// In-place saturating subtraction.
    pub fn sub_assign(&mut self, rhs: Self)
        ensures
            sval(final(self).bits as nat, 16) == sat_signed(
                sval(old(self).bits as nat, 16) - sval(rhs.bits as nat, 16),
                16,
            ),
    {
        *self = self.sub(rhs);
    }

    /// In-place saturating multiplication.
    pub fn mul_assign(&mut self, rhs: Self)
        ensures
            sval(final(self).bits as nat, 16) == mul_sat_signed(
                sval(old(self).bits as nat, 16),
                sval(rhs.bits as nat, 16),
                16,
                13,
            ),
    {
        *self = self.mul(rhs);
    }

    /// Value ordering: whether this value is below the other.
    pub fn lt(&self, rhs: &Self) -> (r: bool)
        ensures
            r == (sval(self.bits as nat, 16) < sval(rhs.bits as nat, 16)),
    {
        self.as_signed_bits() < rhs.as_signed_bits()
    }

    /// Conversion from the 8-bit signed certum: MIN and MAX map exactly, the value widens losslessly into the added fraction bits.
    pub fn from_c8(v: c8) -> (r: Self)
        ensures
            r.bits as nat == convert_signed(v.bits as nat, 8, 6, 16, 13),
    {
        proof {
            lemma2_to64();
            lemma2_to64_rest();
        }
        let w = arith::s_convert(v.bits as u128, 8, 6, 16, 13);
        Self { bits: w as u16 }
    }

    /// Conversion from the 32-bit signed certum: MIN and MAX map exactly, the fraction bits past this width are floored away, out-of-range values saturate.
    pub fn from_c32(v: c32) -> (r: Self)
        ensures
            r.bits as nat == convert_signed(v.bits as nat, 32, 28, 16, 13),
    {
        proof {
            lemma2_to64();
            lemma2_to64_rest();
        }
        let w = arith::s_convert(v.bits as u128, 32, 28, 16, 13);
        Self { bits: w as u16 }
    }

    /// Conversion from the 64-bit signed certum: MIN and MAX map exactly, the fraction bits past this width are floored away, out-of-range values saturate.
    pub fn from_c64(v: c64) -> (r: Self)
        ensures
            r.bits as nat == convert_signed(v.bits as nat, 64, 59, 16, 13),
    {
        proof {
            lemma2_to64();
            lemma2_to64_rest();
        }
        let w = arith::s_convert(v.bits as u128, 64, 59, 16, 13);
        Self { bits: w as u16 }
    }

    /// Conversion from the 128-bit signed certum: MIN and MAX map exactly, the fraction bits past this width are floored away, out-of-range values saturate.
    pub fn from_c128(v: c128) -> (r: Self)
        ensures
            r.bits as nat == convert_signed(v.bits as nat, 128, 122, 16, 13),
    {
        proof {
            lemma2_to64();
            lemma2_to64_rest();
            crate::quire::quire256::lemma_pow2_words();
            arith::lemma_split_top(128);
        }
        let w = arith::s_convert(v.bits, 128, 122, 16, 13);
        Self { bits: w as u16 }
    }

    /// Reinterpretation of the unsigned twin's bits, unchanged.
    pub fn from_uc16(v: uc16) -> (r: Self)
        ensures
            r.bits == v.bits,
    {
        Self { bits: v.bits }
    }
}

} // verus!
