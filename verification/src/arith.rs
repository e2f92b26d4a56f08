//! Width-parameterised kernels for the saturating fixed-point operations.
//!
//! Every certum width is a thin wrapper around these functions, which work on
//! `u128` patterns together with the width `n` and the fraction-bit count `f`.
//! Each kernel's contract ties the result to the value-level functions of
//! [`crate::model`].

use vstd::prelude::*;
use vstd::arithmetic::power2::{pow2, lemma2_to64, lemma_pow2_adds, lemma_pow2_strictly_increases};
use vstd::arithmetic::mul::{lemma_mul_inequality, lemma_mul_upper_bound};
use vstd::arithmetic::div_mod::lemma_fundamental_div_mod;
use crate::model::{
    in_width, min_bits, full_mask, sval, sat_signed, sat_unsigned, neg_sat, mag_sat,
    mul_sat_signed, mul_sat_unsigned, convert_signed, convert_unsigned,
    valid_signed_layout, valid_unsigned_layout,
};

verus! {

/// pow2(n) doubles pow2(n - 1), and both fit strictly under pow2(128).
pub proof fn lemma_split_top(n: nat)
    requires
        1 <= n <= 128,
    ensures
        pow2(n) == 2 * pow2((n - 1) as nat),
        pow2((n - 1) as nat) >= 1,
        pow2(n) <= pow2(128),
        pow2(128) == 0x100000000000000000000000000000000,
{
    vstd::arithmetic::power2::lemma_pow2_pos((n - 1) as nat);
    lemma_pow2_adds((n - 1) as nat, 1);
    lemma2_to64();
    lemma_pow2_adds(64, 64);
    if n < 128 {
        lemma_pow2_strictly_increases(n, 128);
    }
}

/// 2 raised to the `k`-th power, computed executably.
pub fn pow2_u128(k: u32) -> (r: u128)
    requires
        k < 128,
    ensures
        r as nat == pow2(k as nat),
{
    proof {
        lemma2_to64();
    }
    let mut i: u32 = 0;
    let mut r: u128 = 1;
    while i < k
        invariant
            i <= k,
            k < 128,
            r as nat == pow2(i as nat),
        decreases k - i,
    {
        proof {
            lemma_split_top((i + 1) as nat);
            lemma_split_top(128);
            if i + 1 < 128 {
                lemma_pow2_strictly_increases((i + 1) as nat, 128);
            }
        }
        r = r * 2;
        i = i + 1;
    }
    r
}

/// The all-ones pattern of width `n`, computed executably.
pub fn mask_u128(n: u32) -> (r: u128)
    requires
        1 <= n <= 128,
    ensures
        r as nat == full_mask(n as nat),
{
    proof {
        lemma_split_top(n as nat);
    }
    if n == 128 {
        u128::MAX
    } else {
        pow2_u128(n) - 1
    }
}

/// The sign-bit-only pattern of width `n` (the signed MIN), computed executably.
pub fn half_u128(n: u32) -> (r: u128)
    requires
        1 <= n <= 128,
    ensures
        r as nat == min_bits(n as nat),
{
    pow2_u128(n - 1)
}

/// Saturating two's-complement negation of an `n`-bit pattern.
pub fn s_neg(b: u128, n: u32) -> (r: u128)
    requires
        2 <= n <= 128,
        in_width(b as nat, n as nat),
    ensures
        in_width(r as nat, n as nat),
        sval(r as nat, n as nat) == neg_sat(sval(b as nat, n as nat), n as nat),
{
    proof {
        lemma_split_top(n as nat);
    }
    let half = half_u128(n);
    if b == half {
        half - 1
    } else if b == 0 {
        0
    } else {
        let mask = mask_u128(n);
        (mask - b) + 1
    }
}

/// Saturating signed addition of two `n`-bit patterns.
pub fn s_add(a: u128, b: u128, n: u32) -> (r: u128)
    requires
        2 <= n <= 128,
        in_width(a as nat, n as nat),
        in_width(b as nat, n as nat),
    ensures
        in_width(r as nat, n as nat),
        sval(r as nat, n as nat) == sat_signed(
            sval(a as nat, n as nat) + sval(b as nat, n as nat),
            n as nat,
        ),
{
    proof {
        lemma_split_top(n as nat);
    }
    let half = half_u128(n);
    let mask = mask_u128(n);
    // Wrapping sum: raw == (a + b) mod 2^n.
    let raw = if b <= mask - a {
        a + b
    } else {
        b - (mask - a) - 1
    };
    let sa = a >= half;
    let sb = b >= half;
    let sr = raw >= half;
    if !sa && !sb && sr {
        half - 1
    } else if sa && sb && !sr {
        half
    } else {
        raw
    }
}

/// Saturating signed subtraction of two `n`-bit patterns.
pub fn s_sub(a: u128, b: u128, n: u32) -> (r: u128)
    requires
        2 <= n <= 128,
        in_width(a as nat, n as nat),
        in_width(b as nat, n as nat),
    ensures
        in_width(r as nat, n as nat),
        sval(r as nat, n as nat) == sat_signed(
            sval(a as nat, n as nat) - sval(b as nat, n as nat),
            n as nat,
        ),
{
    proof {
        lemma_split_top(n as nat);
    }
    let half = half_u128(n);
    let mask = mask_u128(n);
    // Wrapping difference: raw == (a - b) mod 2^n.
    let raw = if b <= a {
        a - b
    } else {
        (mask - (b - a)) + 1
    };
    let sa = a >= half;
    let sb = b >= half;
    let sr = raw >= half;
    if !sa && sb && sr {
        half - 1
    } else if sa && !sb && !sr {
        half
    } else {
        raw
    }
}

/// Saturating unsigned addition of two `n`-bit patterns.
pub fn u_add(a: u128, b: u128, n: u32) -> (r: u128)
    requires
        1 <= n <= 128,
        in_width(a as nat, n as nat),
        in_width(b as nat, n as nat),
    ensures
        in_width(r as nat, n as nat),
        r as int == sat_unsigned(a + b, n as nat),
{
    proof {
        lemma_split_top(n as nat);
    }
    let mask = mask_u128(n);
    if b > mask - a {
        mask
    } else {
        a + b
    }
}

/// Saturating signed fixed-point multiplication for widths up to 64 bits,
/// where the double-width magnitude product fits a native `u128`.
pub fn s_mul(a: u128, b: u128, n: u32, f: u32) -> (r: u128)
    requires
        valid_signed_layout(n as nat, f as nat),
        n <= 64,
        in_width(a as nat, n as nat),
        in_width(b as nat, n as nat),
    ensures
        in_width(r as nat, n as nat),
        sval(r as nat, n as nat) == mul_sat_signed(
            sval(a as nat, n as nat),
            sval(b as nat, n as nat),
            n as nat,
            f as nat,
        ),
{
    proof {
        lemma_split_top(n as nat);
    }
    let half = half_u128(n);
    let mask = mask_u128(n);
    let fpow = pow2_u128(f);
    let neg_a = a >= half;
    let neg_b = b >= half;
    let ma = if a == half {
        half - 1
    } else if neg_a {
        (mask - a) + 1
    } else {
        a
    };
    let mb = if b == half {
        half - 1
    } else if neg_b {
        (mask - b) + 1
    } else {
        b
    };
    proof {
        assert(ma as nat == mag_sat(sval(a as nat, n as nat), n as nat));
        assert(mb as nat == mag_sat(sval(b as nat, n as nat), n as nat));
        lemma2_to64();
        vstd::arithmetic::power2::lemma2_to64_rest();
        vstd::arithmetic::power2::lemma_pow2_pos(f as nat);
        if (n - 1) < 63 {
            lemma_pow2_strictly_increases((n - 1) as nat, 63);
        }
        assert(min_bits(n as nat) <= 0x8000000000000000);
        assert(ma <= 0x7FFFFFFFFFFFFFFF);
        assert(mb <= 0x7FFFFFFFFFFFFFFF);
        lemma_mul_upper_bound(ma as int, 0x7FFFFFFFFFFFFFFF, mb as int, 0x7FFFFFFFFFFFFFFF);
    }
    let p = ma * mb;
    let q = p / fpow;
    if neg_a != neg_b {
        if q >= half {
            half
        } else if q == 0 {
            0
        } else {
            (mask - q) + 1
        }
    } else {
        if q >= half {
            half - 1
        } else {
            q
        }
    }
}

/// Saturating unsigned fixed-point multiplication for widths up to 64 bits.
pub fn u_mul(a: u128, b: u128, n: u32, f: u32) -> (r: u128)
    requires
        valid_unsigned_layout(n as nat, f as nat),
        n <= 64,
        in_width(a as nat, n as nat),
        in_width(b as nat, n as nat),
    ensures
        in_width(r as nat, n as nat),
        r as int == mul_sat_unsigned(a as nat, b as nat, n as nat, f as nat),
{
    proof {
        lemma_split_top(n as nat);
        lemma2_to64();
        vstd::arithmetic::power2::lemma2_to64_rest();
        vstd::arithmetic::power2::lemma_pow2_pos(f as nat);
        if n < 64 {
            lemma_pow2_strictly_increases(n as nat, 64);
        }
        lemma_mul_upper_bound(a as int, 0xFFFFFFFFFFFFFFFF, b as int, 0xFFFFFFFFFFFFFFFF);
    }
    let mask = mask_u128(n);
    let fpow = pow2_u128(f);
    let p = a * b;
    let q = p / fpow;
    if q > mask {
        mask
    } else {
        q
    }
}

/// Saturating unsigned subtraction of two `n`-bit patterns.
pub fn u_sub(a: u128, b: u128, n: u32) -> (r: u128)
    requires
        1 <= n <= 128,
        in_width(a as nat, n as nat),
        in_width(b as nat, n as nat),
    ensures
        in_width(r as nat, n as nat),
        r as int == sat_unsigned(a - b, n as nat),
{
    if b > a {
        0
    } else {
        a - b
    }
}


/// Euclidean division of `-mag` by a positive `d` is the negated
/// rounded-up quotient of `mag` by `d`.
pub proof fn lemma_neg_div_is_neg_ceil(mag: int, d: int)
    requires
        mag >= 0,
        d >= 1,
    ensures
        (-mag) / d == -((mag + d - 1) / d),
{
    broadcast use vstd::arithmetic::mul::group_mul_is_commutative_and_distributive;
    broadcast use vstd::arithmetic::mul::group_mul_basics;
    broadcast use vstd::arithmetic::mul::lemma_mul_unary_negation;

    let q = mag / d;
    let r = mag % d;
    lemma_fundamental_div_mod(mag, d);
    if r == 0 {
        vstd::arithmetic::div_mod::lemma_fundamental_div_mod_converse_div(-mag, d, -q, 0);
        vstd::arithmetic::div_mod::lemma_fundamental_div_mod_converse_div(mag + d - 1, d, q, d - 1);
    } else {
        assert(-mag == (-(q + 1)) * d + (d - r));
        vstd::arithmetic::div_mod::lemma_fundamental_div_mod_converse_div(-mag, d, -(q + 1), d - r);
        assert(mag + d - 1 == (q + 1) * d + (r - 1));
        vstd::arithmetic::div_mod::lemma_fundamental_div_mod_converse_div(mag + d - 1, d, q + 1, r - 1);
    }
}

/// Value-preserving signed conversion from layout (na, fa) to (nb, fb), with
/// the exact MIN/MAX bound mapping and saturation of out-of-range values.
pub fn s_convert(b: u128, na: u32, fa: u32, nb: u32, fb: u32) -> (r: u128)
    requires
        valid_signed_layout(na as nat, fa as nat),
        valid_signed_layout(nb as nat, fb as nat),
        fb >= fa ==> na + (fb - fa) <= 128,
        in_width(b as nat, na as nat),
    ensures
        in_width(r as nat, nb as nat),
        r as nat == convert_signed(b as nat, na as nat, fa as nat, nb as nat, fb as nat),
{
    proof {
        lemma_split_top(na as nat);
        lemma_split_top(nb as nat);
    }
    let minb = half_u128(na);
    let maxb = minb - 1;
    let minb_t = half_u128(nb);
    let maxb_t = minb_t - 1;
    if b == minb {
        return minb_t;
    }
    if b == maxb {
        return maxb_t;
    }
    let neg = b > minb;
    let mag = if neg {
        (mask_u128(na) - b) + 1
    } else {
        b
    };
    proof {
        assert(mag as int == if neg { -sval(b as nat, na as nat) } else { sval(b as nat, na as nat) });
        assert(mag < min_bits(na as nat));
    }
    if fb >= fa {
        let sh = pow2_u128(fb - fa);
        proof {
            vstd::arithmetic::power2::lemma_pow2_pos((fb - fa) as nat);
            lemma_pow2_adds((na - 1) as nat, (fb - fa) as nat);
            if (na - 1) + (fb - fa) < 127 {
                lemma_pow2_strictly_increases(((na - 1) + (fb - fa)) as nat, 127);
            }
            lemma_split_top(128);
            lemma_pow2_adds(127, 1);
            vstd::arithmetic::mul::lemma_mul_strict_inequality(
                mag as int,
                min_bits(na as nat) as int,
                sh as int,
            );
            vstd::arithmetic::mul::lemma_mul_strictly_positive(mag as int, sh as int);
            broadcast use vstd::arithmetic::mul::lemma_mul_unary_negation;

        }
        let m2 = mag * sh;
        if !neg {
            if m2 >= minb_t {
                maxb_t
            } else {
                m2
            }
        } else {
            if m2 > minb_t {
                minb_t
            } else {
                (mask_u128(nb) - m2) + 1
            }
        }
    } else {
        let sh = pow2_u128(fa - fb);
        proof {
            vstd::arithmetic::power2::lemma_pow2_pos((fa - fb) as nat);
            if ((fa - fb) as nat) < 127 {
                lemma_pow2_strictly_increases((fa - fb) as nat, 127);
            }
            lemma_split_top(128);
        }
        if !neg {
            let q = b / sh;
            proof {
                vstd::arithmetic::div_mod::lemma_div_is_ordered(0, b as int, sh as int);
            }
            if q >= minb_t {
                maxb_t
            } else {
                q
            }
        } else {
            let q = (mag + (sh - 1)) / sh;
            proof {
                lemma_neg_div_is_neg_ceil(mag as int, sh as int);
                vstd::arithmetic::div_mod::lemma_div_by_self(sh as int);
                vstd::arithmetic::div_mod::lemma_div_is_ordered(sh as int, (mag + (sh - 1)) as int, sh as int);
                vstd::arithmetic::div_mod::lemma_div_is_ordered(
                    (mag + (sh - 1)) as int,
                    (min_bits(na as nat) + sh - 1) as int,
                    sh as int,
                );
            }
            if q > minb_t {
                minb_t
            } else {
                (mask_u128(nb) - q) + 1
            }
        }
    }
}

/// Value-preserving unsigned conversion from layout (na, fa) to (nb, fb), with
/// the exact all-ones MAX mapping and saturation of out-of-range values.
pub fn u_convert(b: u128, na: u32, fa: u32, nb: u32, fb: u32) -> (r: u128)
    requires
        valid_unsigned_layout(na as nat, fa as nat),
        valid_unsigned_layout(nb as nat, fb as nat),
        fb >= fa ==> na + (fb - fa) <= 128,
        in_width(b as nat, na as nat),
    ensures
        in_width(r as nat, nb as nat),
        r as nat == convert_unsigned(b as nat, na as nat, fa as nat, nb as nat, fb as nat),
{
    proof {
        lemma_split_top(na as nat);
        lemma_split_top(nb as nat);
    }
    let mask_a = mask_u128(na);
    let mask_t = mask_u128(nb);
    if b == mask_a {
        return mask_t;
    }
    if fb >= fa {
        let sh = pow2_u128(fb - fa);
        proof {
            vstd::arithmetic::power2::lemma_pow2_pos((fb - fa) as nat);
            lemma_pow2_adds(na as nat, (fb - fa) as nat);
            if (na + (fb - fa)) < 128 {
                lemma_pow2_strictly_increases((na + (fb - fa)) as nat, 128);
            }
            lemma_split_top(128);
            vstd::arithmetic::mul::lemma_mul_strict_inequality(
                b as int,
                pow2(na as nat) as int,
                sh as int,
            );
        }
        let m2 = b * sh;
        if m2 > mask_t {
            mask_t
        } else {
            m2
        }
    } else {
        let sh = pow2_u128(fa - fb);
        proof {
            vstd::arithmetic::power2::lemma_pow2_pos((fa - fb) as nat);
        }
        let q = b / sh;
        proof {
            vstd::arithmetic::div_mod::lemma_div_is_ordered(0, b as int, sh as int);
        }
        if q > mask_t {
            mask_t
        } else {
            q
        }
    }
}


/// Saturating signed fixed-point multiplication at the full 128-bit width,
/// through the 256-bit wide integer.
pub fn s_mul_128(a: u128, b: u128, f: u32) -> (r: u128)
    requires
        valid_signed_layout(128, f as nat),
        1 <= f <= 126,
    ensures
        sval(r as nat, 128) == mul_sat_signed(sval(a as nat, 128), sval(b as nat, 128), 128, f as nat),
{
    proof {
        lemma_split_top(128);
    }
    let half = half_u128(128);
    let mask = u128::MAX;
    let neg_a = a >= half;
    let neg_b = b >= half;
    let ma = if a == half {
        half - 1
    } else if neg_a {
        (mask - a) + 1
    } else {
        a
    };
    let mb = if b == half {
        half - 1
    } else if neg_b {
        (mask - b) + 1
    } else {
        b
    };
    proof {
        assert(ma as nat == mag_sat(sval(a as nat, 128), 128));
        assert(mb as nat == mag_sat(sval(b as nat, 128), 128));
    }
    let p = crate::quire::quire256::u256::mul_u128s(ma, mb);
    let q256 = p.shr(f);
    proof {
        crate::quire::quire256::lemma_pow2_words();
        crate::quire::quire256::lemma_u256_val_bound(q256);
        if q256.hi != 0 {
            lemma_mul_inequality(1, q256.hi as int, pow2(128) as int);
            vstd::arithmetic::mul::lemma_mul_basics_3(pow2(128) as int);
        } else {
            vstd::arithmetic::mul::lemma_mul_basics_2(pow2(128) as int);
        }
    }
    if q256.hi != 0 {
        if neg_a != neg_b {
            half
        } else {
            half - 1
        }
    } else {
        let q = q256.lo;
        if neg_a != neg_b {
            if q >= half {
                half
            } else if q == 0 {
                0
            } else {
                (mask - q) + 1
            }
        } else {
            if q >= half {
                half - 1
            } else {
                q
            }
        }
    }
}

/// Saturating unsigned fixed-point multiplication at the full 128-bit width,
/// through the 256-bit wide integer.
pub fn u_mul_128(a: u128, b: u128, f: u32) -> (r: u128)
    requires
        valid_unsigned_layout(128, f as nat),
        1 <= f <= 126,
    ensures
        r as int == mul_sat_unsigned(a as nat, b as nat, 128, f as nat),
{
    proof {
        lemma_split_top(128);
    }
    let p = crate::quire::quire256::u256::mul_u128s(a, b);
    let q256 = p.shr(f);
    proof {
        crate::quire::quire256::lemma_pow2_words();
        crate::quire::quire256::lemma_u256_val_bound(q256);
        if q256.hi != 0 {
            lemma_mul_inequality(1, q256.hi as int, pow2(128) as int);
            vstd::arithmetic::mul::lemma_mul_basics_3(pow2(128) as int);
        } else {
            vstd::arithmetic::mul::lemma_mul_basics_2(pow2(128) as int);
        }
    }
    if q256.hi != 0 {
        u128::MAX
    } else {
        q256.lo
    }
}

} // verus!
