//! Mathematical model of a certum bit pattern.
//!
//! A certum of width `n` with `f` fraction bits stores an unsigned pattern
//! `b < 2^n`.  Signed layouts read `b` as an `n`-bit two's-complement number;
//! the real value represented is that number divided by `2^f`.  Every contract
//! of the crate speaks of patterns through the functions of this module, which
//! work in "grains": integer multiples of the type's smallest step `2^-f`.

use vstd::prelude::*;
use vstd::arithmetic::power2::pow2;

verus! {

/// A signed layout has a sign bit, at least one integer bit and `f` fraction bits.
pub open spec fn valid_signed_layout(n: nat, f: nat) -> bool {
    1 <= f && f + 2 <= n && n <= 128
}

/// An unsigned layout has at least one integer bit and `f` fraction bits.
pub open spec fn valid_unsigned_layout(n: nat, f: nat) -> bool {
    1 <= f && f + 1 <= n && n <= 128
}

/// `b` is a bit pattern of width `n`.
pub open spec fn in_width(b: nat, n: nat) -> bool {
    b < pow2(n)
}

/// The pattern with only the sign bit set: the most negative signed value.
pub open spec fn min_bits(n: nat) -> nat {
    pow2((n - 1) as nat)
}

/// The pattern with every bit but the sign bit set: the largest signed value.
pub open spec fn max_bits(n: nat) -> nat {
    (pow2((n - 1) as nat) - 1) as nat
}

/// The all-ones pattern of width `n`.
pub open spec fn full_mask(n: nat) -> nat {
    (pow2(n) - 1) as nat
}

/// Two's-complement reading of an `n`-bit pattern, in grains.
pub open spec fn sval(b: nat, n: nat) -> int {
    if b < min_bits(n) {
        b as int
    } else {
        b - pow2(n)
    }
}

/// The smallest signed value of width `n`, in grains.
pub open spec fn min_sval(n: nat) -> int {
    -(min_bits(n) as int)
}

/// The largest signed value of width `n`, in grains.
pub open spec fn max_sval(n: nat) -> int {
    max_bits(n) as int
}

/// The `n`-bit two's-complement pattern of an in-range signed value `v`.
pub open spec fn bits_of_sval(v: int, n: nat) -> nat {
    if v >= 0 {
        v as nat
    } else {
        (v + pow2(n)) as nat
    }
}

/// Clamp `v` to the signed `n`-bit range.
pub open spec fn sat_signed(v: int, n: nat) -> int {
    if v > max_sval(n) {
        max_sval(n)
    } else if v < min_sval(n) {
        min_sval(n)
    } else {
        v
    }
}

/// Clamp `v` to the unsigned `n`-bit range.
pub open spec fn sat_unsigned(v: int, n: nat) -> int {
    if v > full_mask(n) {
        full_mask(n) as int
    } else if v < 0 {
        0
    } else {
        v
    }
}

/// Saturating negation: the most negative value has no representable negative
/// and yields the largest value instead.
pub open spec fn neg_sat(v: int, n: nat) -> int {
    if v == min_sval(n) {
        max_sval(n)
    } else {
        -v
    }
}

/// |v|, with the magnitude of the most negative value saturated to the largest
/// representable magnitude.
pub open spec fn mag_sat(v: int, n: nat) -> nat {
    if v == min_sval(n) {
        max_bits(n)
    } else if v < 0 {
        (-v) as nat
    } else {
        v as nat
    }
}

/// Signed fixed-point product in grains: multiply the saturated magnitudes,
/// drop `f` fraction bits (truncation toward zero), reapply the combined sign,
/// and clamp to the representable range.
pub open spec fn mul_sat_signed(va: int, vb: int, n: nat, f: nat) -> int {
    let m = (mag_sat(va, n) * mag_sat(vb, n)) / pow2(f);
    if (va < 0) != (vb < 0) {
        sat_signed(-(m as int), n)
    } else {
        sat_signed(m as int, n)
    }
}

/// Unsigned fixed-point product in grains.
pub open spec fn mul_sat_unsigned(a: nat, b: nat, n: nat, f: nat) -> int {
    sat_unsigned(((a * b) / pow2(f)) as int, n)
}

/// Signed conversion from layout (na, fa) to layout (nb, fb).
///
/// The type's own MIN and MAX patterns map to the target's MIN and MAX exactly.
/// Every other pattern converts by value: widening scales the value up by the
/// growth in fraction bits, narrowing drops the fraction bits the target
/// cannot hold (flooring), and a value outside the target's range clamps to
/// the target's MIN or MAX.
pub open spec fn convert_signed(b: nat, na: nat, fa: nat, nb: nat, fb: nat) -> nat {
    if b == min_bits(na) {
        min_bits(nb)
    } else if b == max_bits(na) {
        max_bits(nb)
    } else {
        let v = sval(b, na);
        let v2 = if fb >= fa {
            v * pow2((fb - fa) as nat)
        } else {
            v / (pow2((fa - fb) as nat) as int)
        };
        if v2 > max_sval(nb) {
            max_bits(nb)
        } else if v2 < min_sval(nb) {
            min_bits(nb)
        } else {
            bits_of_sval(v2, nb)
        }
    }
}

/// Unsigned conversion from layout (na, fa) to layout (nb, fb): as the signed
/// conversion, with the all-ones MAX pattern mapped exactly and zero as MIN.
pub open spec fn convert_unsigned(b: nat, na: nat, fa: nat, nb: nat, fb: nat) -> nat {
    if b == full_mask(na) {
        full_mask(nb)
    } else {
        let v2 = if fb >= fa {
            b * pow2((fb - fa) as nat)
        } else {
            b / pow2((fa - fb) as nat)
        };
        if v2 > full_mask(nb) {
            full_mask(nb)
        } else {
            v2
        }
    }
}

} // verus!
