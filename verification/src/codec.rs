//! Conversion between IEEE-754 double-precision bit patterns and certum
//! patterns, as pure integer arithmetic.
//!
//! A double with stored bits `fb` is read arithmetically: sign `fb / 2^63`,
//! biased exponent `(fb / 2^52) % 2^11` and mantissa field `fb % 2^52`; a
//! finite double's magnitude is `m * 2^e` for the significand `m` and
//! exponent `e` below.  Encoding a double into an `(n, f)` layout rounds the
//! magnitude half-up in grains and saturates at the layout's bounds; decoding
//! a pattern produces the nearest double, ties to even — exactly the native
//! cast semantics, but verified and without a floating-point type in sight.
//!
//! A NaN input encodes as the zero pattern: the behaviour is this crate's
//! explicit decision, stated here and in the contracts.

use vstd::prelude::*;
use vstd::arithmetic::power2::{
    pow2, lemma2_to64, lemma2_to64_rest, lemma_pow2_adds, lemma_pow2_pos,
    lemma_pow2_strictly_increases,
};
use vstd::arithmetic::mul::{
    lemma_mul_inequality, lemma_mul_upper_bound, lemma_mul_is_associative,
    lemma_mul_is_commutative, lemma_mul_strict_inequality, lemma_mul_is_distributive_add_other_way,
};
use vstd::arithmetic::div_mod::{
    lemma_fundamental_div_mod, lemma_fundamental_div_mod_converse_div,
    lemma_fundamental_div_mod_converse_mod, lemma_basic_div, lemma_div_is_ordered,
    lemma_multiply_divide_lt,
};
use crate::arith::{lemma_split_top, pow2_u128, mask_u128, half_u128};
use crate::model::{
    in_width, min_bits, max_bits, full_mask, bits_of_sval, valid_signed_layout,
    valid_unsigned_layout,
};

verus! {

/// The stored sign bit of a double.
pub open spec fn f64_neg(fb: u64) -> bool {
    fb as nat / pow2(63) == 1
}

/// The stored biased exponent of a double.
pub open spec fn f64_biased_exp(fb: u64) -> nat {
    (fb as nat / pow2(52)) % pow2(11)
}

/// The stored mantissa field of a double.
pub open spec fn f64_mant_field(fb: u64) -> nat {
    fb as nat % pow2(52)
}

/// A double is finite unless its exponent field is all ones.
pub open spec fn f64_is_finite(fb: u64) -> bool {
    f64_biased_exp(fb) != 2047
}

/// The significand of a finite double: the mantissa field, with the hidden
/// bit added for normal numbers.
pub open spec fn f64_mant(fb: u64) -> nat {
    if f64_biased_exp(fb) == 0 {
        f64_mant_field(fb)
    } else {
        f64_mant_field(fb) + pow2(52)
    }
}

/// The binary exponent of a finite double; its magnitude is mant * 2^exp.
pub open spec fn f64_exp(fb: u64) -> int {
    if f64_biased_exp(fb) == 0 {
        -1074
    } else {
        f64_biased_exp(fb) - 1075
    }
}

/// m * 2^k rounded half-up to an integer (ties away from zero on the
/// magnitude, which is the crate's rounding rule for encoding).
pub open spec fn rhu(m: nat, k: int) -> nat {
    if k >= 0 {
        m * pow2(k as nat)
    } else {
        (m + pow2((-k - 1) as nat)) / pow2((-k) as nat)
    }
}

/// The signed (n, f) pattern encoding the double with stored bits `fb`:
/// infinities map to the bounds, NaN maps to zero, and every finite value is
/// rounded half-up in grains and saturated at the bounds.
pub open spec fn encode_signed(fb: u64, n: nat, f: nat) -> nat {
    if !f64_is_finite(fb) {
        if f64_mant_field(fb) != 0 {
            0
        } else if f64_neg(fb) {
            min_bits(n)
        } else {
            max_bits(n)
        }
    } else {
        let q = rhu(f64_mant(fb), f64_exp(fb) + f);
        if f64_neg(fb) {
            if q >= min_bits(n) {
                min_bits(n)
            } else {
                bits_of_sval(-(q as int), n)
            }
        } else {
            if q >= min_bits(n) {
                max_bits(n)
            } else {
                q
            }
        }
    }
}

/// The unsigned (n, f) pattern encoding the double with stored bits `fb`:
/// negative values clamp to zero, +infinity maps to the all-ones MAX, NaN
/// maps to zero, and finite values round half-up and saturate at MAX.
pub open spec fn encode_unsigned(fb: u64, n: nat, f: nat) -> nat {
    if !f64_is_finite(fb) {
        if f64_mant_field(fb) != 0 {
            0
        } else if f64_neg(fb) {
            0
        } else {
            full_mask(n)
        }
    } else if f64_neg(fb) {
        0
    } else {
        let q = rhu(f64_mant(fb), f64_exp(fb) + f);
        if q > full_mask(n) {
            full_mask(n)
        } else {
            q
        }
    }
}

/// Position of the highest set bit of m (floor of log base 2).
pub open spec fn log2(m: nat) -> nat
    decreases m,
{
    if m < 2 {
        0
    } else {
        1 + log2(m / 2)
    }
}

/// m rounded to 53 significant bits, nearest, ties to even: yields the 53-bit
/// significand together with the bit position of its leading bit, so that the
/// rounded value is sig * 2^(pos - 52).
pub open spec fn norm53(m: nat) -> (nat, nat) {
    let p = log2(m);
    if p <= 52 {
        (m * pow2((52 - p) as nat), p)
    } else {
        let sh = (p - 52) as nat;
        let q = m / pow2(sh);
        let r = m % pow2(sh);
        let half = pow2((sh - 1) as nat);
        let q2 = if r > half || (r == half && q % 2 == 1) {
            q + 1
        } else {
            q
        };
        if q2 == pow2(53) {
            (pow2(52), p + 1)
        } else {
            (q2, p)
        }
    }
}

/// The IEEE-754 double bit pattern nearest to (-1)^neg * mag * 2^-f, ties to
/// even.  With f at most 63 and mag below 2^65 the result is always a normal
/// double, so no overflow or subnormal case arises.
pub open spec fn decode_bits(neg: bool, mag: nat, f: nat) -> nat {
    if mag == 0 {
        0
    } else {
        let sig = norm53(mag).0;
        let pos = norm53(mag).1;
        let sgn: nat = if neg {
            pow2(63)
        } else {
            0
        };
        sgn + ((pos + 1023 - f) as nat) * pow2(52) + (sig - pow2(52)) as nat
    }
}

/// The bracketing property of log2: m lies between the powers of two at its
/// leading-bit position.
pub proof fn lemma_log2_bracket(m: nat)
    requires
        m >= 1,
    ensures
        pow2(log2(m)) <= m < pow2(log2(m) + 1),
    decreases m,
{
    lemma2_to64();
    if m < 2 {
    } else {
        lemma_log2_bracket(m / 2);
        lemma_pow2_adds(log2(m / 2), 1);
        lemma_pow2_adds(log2(m / 2) + 1, 1);
    }
}

/// log2 never exceeds the bit position of any upper power-of-two bound.
pub proof fn lemma_log2_below(m: nat, k: nat)
    requires
        1 <= m,
        m < pow2(k),
    ensures
        log2(m) < k,
{
    lemma_log2_bracket(m);
    if log2(m) >= k {
        if log2(m) > k {
            lemma_pow2_strictly_increases(k, log2(m));
        }
        assert(pow2(log2(m)) >= pow2(k));
    }
}

/// Floor of log base 2, executable.
pub fn floor_log2(m: u128) -> (r: u32)
    requires
        m >= 1,
    ensures
        r as nat == log2(m as nat),
        r < 128,
{
    proof {
        lemma2_to64();
    }
    let mut x: u128 = m;
    let mut r: u32 = 0;
    while x >= 2
        invariant
            x >= 1,
            log2(m as nat) == r + log2(x as nat),
            pow2(r as nat) <= m as nat,
            r < 128,
        decreases x,
    {
        proof {
            lemma_log2_bracket(m as nat);
            assert(log2(x as nat) >= 1);
            if ((r + 1) as nat) < log2(m as nat) {
                lemma_pow2_strictly_increases((r + 1) as nat, log2(m as nat));
            }
            lemma_split_top(128);
            if ((r + 1) as nat) > 128 {
                lemma_pow2_strictly_increases(128, (r + 1) as nat);
            }
            assert(pow2((r + 1) as nat) <= m as nat);
            assert(((r + 1) as nat) < 128);
        }
        x = x / 2;
        r = r + 1;
    }
    r
}


/// The IEEE-754 double bit pattern nearest to (-1)^neg * mag / 2^f, ties to
/// even, computed executably.
pub fn decode_core(neg: bool, mag: u64, f: u32) -> (r: u64)
    requires
        1 <= f <= 63,
    ensures
        r as nat == decode_bits(neg, mag as nat, f as nat),
{
    proof {
        lemma2_to64();
        lemma2_to64_rest();
    }
    if mag == 0 {
        return 0;
    }
    let p = floor_log2(mag as u128);
    proof {
        lemma_log2_bracket(mag as nat);
        lemma_log2_below(mag as nat, 64);
    }
    let sig: u64;
    let pos: u32;
    if p <= 52 {
        let sh = pow2_u128(52 - p) as u64;
        proof {
            if 52 - p < 52 {
                lemma_pow2_strictly_increases((52 - p) as nat, 52);
            }
            lemma_pow2_adds((p + 1) as nat, (52 - p) as nat);
            lemma_mul_strict_inequality(
                mag as int,
                pow2((p + 1) as nat) as int,
                sh as int,
            );
            lemma_pow2_adds(p as nat, (52 - p) as nat);
            lemma_mul_inequality(pow2(p as nat) as int, mag as int, sh as int);
        }
        sig = mag * sh;
        pos = p;
    } else {
        let sh_amt = p - 52;
        let d = pow2_u128(sh_amt) as u64;
        proof {
            if sh_amt < 52 {
                lemma_pow2_strictly_increases(sh_amt as nat, 52);
            }
            lemma_pow2_adds((sh_amt - 1) as nat, 1);
            lemma_pow2_adds(sh_amt as nat, 53);
            lemma_multiply_divide_lt(mag as int, d as int, pow2(53) as int);
            lemma_pow2_adds(52, sh_amt as nat);
            vstd::arithmetic::div_mod::lemma_div_by_multiple(pow2(52) as int, d as int);
            lemma_div_is_ordered(pow2(p as nat) as int, mag as int, d as int);
            lemma_mul_is_commutative(pow2(52) as int, d as int);
        }
        let q = mag / d;
        let rem = mag % d;
        let half = d / 2;
        let q2 = if rem > half || (rem == half && q % 2 == 1) {
            q + 1
        } else {
            q
        };
        if q2 == 0x20000000000000 {
            sig = 0x10000000000000;
            pos = p + 1;
        } else {
            sig = q2;
            pos = p;
        }
    }
    proof {
        assert(sig as nat == norm53(mag as nat).0);
        assert(pos as nat == norm53(mag as nat).1);
        assert(pow2(52) <= sig < pow2(53));
    }
    let ebits = (pos + 1023 - f) as u64;
    let base = ebits * 0x10000000000000 + (sig - 0x10000000000000);
    if neg {
        0x8000000000000000u64 + base
    } else {
        base
    }
}


/// rhu(m, k) computed executably, with an early cap: when the result is known
/// to reach 2^64 (past every saturation bound of the encoders) the second
/// component reports that instead of the exact value.
fn rhu_exec(m: u64, k: i64) -> (res: (u128, bool))
    requires
        1 <= m,
        (m as nat) < pow2(53),
        -2048 <= k <= 2048,
    ensures
        res.1 ==> rhu(m as nat, k as int) >= pow2(64),
        !res.1 ==> res.0 as nat == rhu(m as nat, k as int),
{
    proof {
        lemma2_to64();
        lemma2_to64_rest();
    }
    if k >= 0 {
        if k >= 65 {
            proof {
                lemma_pow2_strictly_increases(64, k as nat);
                lemma_mul_inequality(1, m as int, pow2(k as nat) as int);
                vstd::arithmetic::mul::lemma_mul_basics_3(pow2(k as nat) as int);
            }
            (0, true)
        } else {
            let pk = pow2_u128(k as u32);
            proof {
                if k < 64 {
                    lemma_pow2_strictly_increases(k as nat, 64);
                }
                lemma_mul_upper_bound(
                    m as int,
                    0x1FFFFFFFFFFFFF,
                    pk as int,
                    0x10000000000000000,
                );
            }
            ((m as u128) * pk, false)
        }
    } else {
        let nk = (-k) as u32;
        if nk >= 54 {
            proof {
                if nk > 54 {
                    lemma_pow2_strictly_increases(53, (nk - 1) as nat);
                }
                lemma_pow2_adds((nk - 1) as nat, 1);
                lemma_pow2_pos((nk - 1) as nat);
                lemma_basic_div((m + pow2((nk - 1) as nat)) as int, pow2(nk as nat) as int);
            }
            (0, false)
        } else {
            let hp = pow2_u128(nk - 1);
            let dp = pow2_u128(nk);
            proof {
                lemma_pow2_pos(nk as nat);
            }
            (((m as u128) + hp) / dp, false)
        }
    }
}

/// The signed (n, f) pattern encoding the double with stored bits `fb`,
/// computed executably: clamped rounding half-up in grains, infinities to the
/// bounds, NaN to zero.
pub fn encode_signed_core(fb: u64, n: u32, f: u32) -> (r: u128)
    requires
        valid_signed_layout(n as nat, f as nat),
        n <= 64,
    ensures
        in_width(r as nat, n as nat),
        r as nat == encode_signed(fb, n as nat, f as nat),
{
    proof {
        lemma2_to64();
        lemma2_to64_rest();
        lemma_split_top(n as nat);
        if n < 64 {
            lemma_pow2_strictly_increases(n as nat, 64);
        }
        if (n - 1) < 64 {
            lemma_pow2_strictly_increases((n - 1) as nat, 64);
        }
    }
    let neg = fb >= 0x8000000000000000;
    let biased = (fb / 0x10000000000000) % 0x800;
    let mant_field = fb % 0x10000000000000;
    proof {
        assert(f64_neg(fb) == neg);
        assert(f64_biased_exp(fb) == biased as nat);
        assert(f64_mant_field(fb) == mant_field as nat);
    }
    let half_n = half_u128(n);
    if biased == 0x7FF {
        if mant_field != 0 {
            return 0;
        }
        if neg {
            return half_n;
        }
        return half_n - 1;
    }
    let m: u64 = if biased == 0 {
        mant_field
    } else {
        mant_field + 0x10000000000000
    };
    if m == 0 {
        proof {
            let k = f64_exp(fb) + f as nat;
            if k >= 0 {
                vstd::arithmetic::mul::lemma_mul_basics_1(pow2(k as nat) as int);
            } else {
                lemma_pow2_strictly_increases((-k - 1) as nat, (-k) as nat);
                lemma_pow2_pos((-k) as nat);
                lemma_basic_div(pow2((-k - 1) as nat) as int, pow2((-k) as nat) as int);
            }
        }
        return 0;
    }
    let e: i64 = if biased == 0 {
        -1074
    } else {
        biased as i64 - 1075
    };
    let k: i64 = e + f as i64;
    let (q, sat) = rhu_exec(m, k);
    let mask_n = mask_u128(n);
    if neg {
        if sat || q >= half_n {
            half_n
        } else if q == 0 {
            0
        } else {
            (mask_n - q) + 1
        }
    } else {
        if sat || q >= half_n {
            half_n - 1
        } else {
            q
        }
    }
}

/// The unsigned (n, f) pattern encoding the double with stored bits `fb`,
/// computed executably: negative values clamp to zero, +infinity to the
/// all-ones MAX, NaN to zero.
pub fn encode_unsigned_core(fb: u64, n: u32, f: u32) -> (r: u128)
    requires
        valid_unsigned_layout(n as nat, f as nat),
        n <= 64,
    ensures
        in_width(r as nat, n as nat),
        r as nat == encode_unsigned(fb, n as nat, f as nat),
{
    proof {
        lemma2_to64();
        lemma2_to64_rest();
        lemma_split_top(n as nat);
        if n < 64 {
            lemma_pow2_strictly_increases(n as nat, 64);
        }
    }
    let neg = fb >= 0x8000000000000000;
    let biased = (fb / 0x10000000000000) % 0x800;
    let mant_field = fb % 0x10000000000000;
    proof {
        assert(f64_neg(fb) == neg);
        assert(f64_biased_exp(fb) == biased as nat);
        assert(f64_mant_field(fb) == mant_field as nat);
    }
    let mask_n = mask_u128(n);
    if biased == 0x7FF {
        if mant_field != 0 {
            return 0;
        }
        if neg {
            return 0;
        }
        return mask_n;
    }
    if neg {
        return 0;
    }
    let m: u64 = if biased == 0 {
        mant_field
    } else {
        mant_field + 0x10000000000000
    };
    if m == 0 {
        proof {
            let k = f64_exp(fb) + f as nat;
            if k >= 0 {
                vstd::arithmetic::mul::lemma_mul_basics_1(pow2(k as nat) as int);
            } else {
                lemma_pow2_strictly_increases((-k - 1) as nat, (-k) as nat);
                lemma_pow2_pos((-k) as nat);
                lemma_basic_div(pow2((-k - 1) as nat) as int, pow2((-k) as nat) as int);
            }
        }
        return 0;
    }
    let e: i64 = if biased == 0 {
        -1074
    } else {
        biased as i64 - 1075
    };
    let k: i64 = e + f as i64;
    let (q, sat) = rhu_exec(m, k);
    if sat || q > mask_n {
        mask_n
    } else {
        q
    }
}


/// The magnitude of the signed value of an n-bit pattern.
pub open spec fn s_mag(b: nat, n: nat) -> nat {
    if b < min_bits(n) {
        b
    } else {
        (pow2(n) - b) as nat
    }
}

/// Whether an n-bit pattern reads as a negative signed value.
pub open spec fn s_is_neg(b: nat, n: nat) -> bool {
    b >= min_bits(n)
}

/// The bits of m that rounding to 53 significant bits discards.  A magnitude
/// round-trips through a double exactly when this is zero.
pub open spec fn drop53(m: nat) -> nat {
    if log2(m) <= 52 {
        0
    } else {
        m % pow2((log2(m) - 52) as nat)
    }
}

/// Splitting a double's bit pattern into its three fields: the arithmetic
/// reading of sign * 2^63 + exponent * 2^52 + mantissa recovers each field.
pub proof fn lemma_f64_field_split(s: nat, e: nat, m: nat)
    requires
        s <= 1,
        1 <= e < 2047,
        m < pow2(52),
    ensures
        s * pow2(63) + e * pow2(52) + m < pow2(64),
        f64_neg((s * pow2(63) + e * pow2(52) + m) as u64) == (s == 1),
        f64_biased_exp((s * pow2(63) + e * pow2(52) + m) as u64) == e,
        f64_mant_field((s * pow2(63) + e * pow2(52) + m) as u64) == m,
{
    lemma2_to64();
    lemma2_to64_rest();
    let fb = s * pow2(63) + e * pow2(52) + m;
    let hi = s * 2048 + e;
    assert(s * pow2(63) == hi * pow2(52) - e * pow2(52)) by {
        lemma_mul_is_distributive_add_other_way(pow2(52) as int, (s * 2048) as int, e as int);
        lemma_mul_is_associative(s as int, 2048, pow2(52) as int);
    }
    assert(fb == hi * pow2(52) + m);
    assert(fb < pow2(64)) by {
        lemma_mul_inequality(hi as int, 4095, pow2(52) as int);
    }
    assert(fb as u64 == fb);
    assert(fb as nat / pow2(52) == hi && fb as nat % pow2(52) == m) by {
        lemma_fundamental_div_mod_converse_div(fb as int, pow2(52) as int, hi as int, m as int);
        lemma_fundamental_div_mod_converse_mod(fb as int, pow2(52) as int, hi as int, m as int);
    }
    assert(hi % pow2(11) == e) by {
        vstd::arithmetic::div_mod::lemma_mod_multiples_vanish(s as int, e as int, 2048);
        lemma_mul_is_commutative(s as int, 2048);
        vstd::arithmetic::div_mod::lemma_small_mod(e, 2048);
    }
    assert(fb as nat / pow2(63) == s) by {
        assert(e * pow2(52) + m < pow2(63)) by {
            lemma_mul_inequality(e as int, 2046, pow2(52) as int);
        }
        lemma_fundamental_div_mod_converse_div(
            fb as int,
            pow2(63) as int,
            s as int,
            (e * pow2(52) + m) as int,
        );
    }
}

/// Decoding an exactly representable magnitude produces a finite, normal
/// double whose rounded-back grain count is the magnitude itself.
pub proof fn lemma_decode_exact(neg: bool, mag: nat, f: nat)
    requires
        1 <= mag < pow2(64),
        drop53(mag) == 0,
        1 <= f <= 63,
    ensures
        decode_bits(neg, mag, f) < pow2(64),
        f64_is_finite(decode_bits(neg, mag, f) as u64),
        f64_neg(decode_bits(neg, mag, f) as u64) == neg,
        rhu(
            f64_mant(decode_bits(neg, mag, f) as u64),
            f64_exp(decode_bits(neg, mag, f) as u64) + f,
        ) == mag,
{
    lemma2_to64();
    lemma2_to64_rest();
    let p = log2(mag);
    lemma_log2_bracket(mag);
    lemma_log2_below(mag, 64);
    let sig = norm53(mag).0;
    let pos = norm53(mag).1;
    // In the exact case norm53 keeps the leading position and loses nothing:
    // sig * 2^p == mag * 2^52, with 2^52 <= sig < 2^53.
    assert(pos == p && pow2(52) <= sig < pow2(53) && sig * pow2(p) == mag * pow2(52)) by {
        if p <= 52 {
            assert(sig == mag * pow2((52 - p) as nat));
            assert(sig >= pow2(52)) by {
                lemma_mul_inequality(pow2(p) as int, mag as int, pow2((52 - p) as nat) as int);
                lemma_pow2_adds(p, (52 - p) as nat);
            }
            assert(sig < pow2(53)) by {
                lemma_mul_strict_inequality(
                    mag as int,
                    pow2((p + 1) as nat) as int,
                    pow2((52 - p) as nat) as int,
                );
                lemma_pow2_adds((p + 1) as nat, (52 - p) as nat);
            }
            assert(sig * pow2(p) == mag * pow2(52)) by {
                lemma_mul_is_associative(mag as int, pow2((52 - p) as nat) as int, pow2(p) as int);
                lemma_pow2_adds((52 - p) as nat, p);
            }
        } else {
            let sh = (p - 52) as nat;
            let q = mag / pow2(sh);
            lemma_pow2_pos(sh);
            lemma_pow2_pos((sh - 1) as nat);
            assert(mag % pow2(sh) == 0);
            lemma_fundamental_div_mod(mag as int, pow2(sh) as int);
            assert(mag == pow2(sh) * q);
            assert(q >= pow2(52)) by {
                lemma_pow2_adds(52, sh);
                vstd::arithmetic::div_mod::lemma_div_by_multiple(pow2(52) as int, pow2(sh) as int);
                lemma_mul_is_commutative(pow2(52) as int, pow2(sh) as int);
                lemma_div_is_ordered(pow2(p) as int, mag as int, pow2(sh) as int);
            }
            assert(q < pow2(53)) by {
                lemma_pow2_adds(sh, 53);
                lemma_multiply_divide_lt(mag as int, pow2(sh) as int, pow2(53) as int);
            }
            assert(sig == q && pos == p);
            assert(sig * pow2(p) == mag * pow2(52)) by {
                lemma_mul_is_commutative(pow2(sh) as int, q as int);
                lemma_mul_is_associative(q as int, pow2(sh) as int, pow2(52) as int);
                lemma_pow2_adds(sh, 52);
            }
        }
    }
    let s: nat = if neg { 1 } else { 0 };
    let e: nat = (pos + 1023 - f) as nat;
    let m: nat = (sig - pow2(52)) as nat;
    assert(decode_bits(neg, mag, f) == s * pow2(63) + e * pow2(52) + m) by {
        vstd::arithmetic::mul::lemma_mul_basics_1(pow2(63) as int);
        vstd::arithmetic::mul::lemma_mul_basics_3(pow2(63) as int);
    }
    lemma_f64_field_split(s, e, m);
    let fb = (s * pow2(63) + e * pow2(52) + m) as u64;
    assert(f64_mant(fb) == sig);
    assert(f64_exp(fb) == p - 52 - f);
    let k = f64_exp(fb) + f;
    assert(k == p - 52);
    assert(rhu(sig, k) == mag) by {
        if p > 52 {
            assert(rhu(sig, k) == sig * pow2((p - 52) as nat));
            assert(sig * pow2((p - 52) as nat) * pow2(52) == sig * pow2(p)) by {
                lemma_mul_is_associative(sig as int, pow2((p - 52) as nat) as int, pow2(52) as int);
                lemma_pow2_adds((p - 52) as nat, 52);
            }
            vstd::arithmetic::mul::lemma_mul_equality_converse(
                pow2(52) as int,
                (sig * pow2((p - 52) as nat)) as int,
                mag as int,
            );
        } else if p == 52 {
            assert(rhu(sig, 0) == sig * pow2(0));
            vstd::arithmetic::mul::lemma_mul_basics_3(sig as int);
            vstd::arithmetic::mul::lemma_mul_equality_converse(
                pow2(52) as int,
                sig as int,
                mag as int,
            );
        } else {
            let nk = (52 - p) as nat;
            assert(rhu(sig, k) == (sig + pow2((nk - 1) as nat)) / pow2(nk));
            assert(sig == mag * pow2(nk));
            lemma_pow2_pos(nk);
            lemma_pow2_adds((nk - 1) as nat, 1);
            assert(sig + pow2((nk - 1) as nat) == mag * pow2(nk) + pow2((nk - 1) as nat));
            lemma_mul_is_commutative(mag as int, pow2(nk) as int);
            lemma_fundamental_div_mod_converse_div(
                (sig + pow2((nk - 1) as nat)) as int,
                pow2(nk) as int,
                mag as int,
                pow2((nk - 1) as nat) as int,
            );
        }
    }
}

/// A signed certum round-trips through the double codec whenever rounding to
/// 53 significant bits loses none of its magnitude; in particular every
/// 8-, 16- and 32-bit signed certum round-trips exactly.
pub proof fn lemma_round_trip_signed(b: nat, n: nat, f: nat)
    requires
        valid_signed_layout(n, f),
        n <= 64,
        in_width(b, n),
        drop53(s_mag(b, n)) == 0,
    ensures
        decode_bits(s_is_neg(b, n), s_mag(b, n), f) < pow2(64),
        encode_signed(decode_bits(s_is_neg(b, n), s_mag(b, n), f) as u64, n, f) == b,
{
    lemma2_to64();
    lemma2_to64_rest();
    lemma_split_top(n);
    if n < 64 {
        lemma_pow2_strictly_increases(n, 64);
    }
    let neg = s_is_neg(b, n);
    let mag = s_mag(b, n);
    if mag == 0 {
        assert(b == 0 && !neg);
        assert(decode_bits(false, 0, f) == 0);
        assert(f64_biased_exp(0) == 0 && f64_mant_field(0) == 0);
        assert(f64_mant(0u64) == 0);
        let k = f64_exp(0u64) + f;
        assert(k < 0);
        assert(rhu(0, k) == 0) by {
            lemma_pow2_strictly_increases((-k - 1) as nat, (-k) as nat);
            lemma_pow2_pos((-k) as nat);
            lemma_basic_div(pow2((-k - 1) as nat) as int, pow2((-k) as nat) as int);
        }
        assert(f64_neg(0u64) == false);
        assert(encode_signed(0u64, n, f) == 0);
    } else {
        lemma_decode_exact(neg, mag, f);
        let fb = decode_bits(neg, mag, f) as u64;
        let q = rhu(f64_mant(fb), f64_exp(fb) + f);
        assert(q == mag);
        if neg {
            if b == min_bits(n) {
                assert(mag == min_bits(n));
                assert(encode_signed(fb, n, f) == min_bits(n));
            } else {
                assert(mag < min_bits(n));
                assert(encode_signed(fb, n, f) == bits_of_sval(-(mag as int), n));
                assert(bits_of_sval(-(mag as int), n) == b);
            }
        } else {
            assert(mag == b && b < min_bits(n));
            assert(encode_signed(fb, n, f) == b);
        }
    }
}

/// An unsigned certum round-trips through the double codec whenever rounding
/// to 53 significant bits loses none of its value; in particular every 8-,
/// 16- and 32-bit unsigned certum round-trips exactly.
pub proof fn lemma_round_trip_unsigned(b: nat, n: nat, f: nat)
    requires
        valid_unsigned_layout(n, f),
        n <= 64,
        in_width(b, n),
        drop53(b) == 0,
    ensures
        decode_bits(false, b, f) < pow2(64),
        encode_unsigned(decode_bits(false, b, f) as u64, n, f) == b,
{
    lemma2_to64();
    lemma2_to64_rest();
    lemma_split_top(n);
    if n < 64 {
        lemma_pow2_strictly_increases(n, 64);
    }
    if b == 0 {
        assert(decode_bits(false, 0, f) == 0);
        assert(f64_biased_exp(0) == 0 && f64_mant_field(0) == 0);
        assert(f64_mant(0u64) == 0);
        let k = f64_exp(0u64) + f;
        assert(rhu(0, k) == 0) by {
            lemma_pow2_strictly_increases((-k - 1) as nat, (-k) as nat);
            lemma_pow2_pos((-k) as nat);
            lemma_basic_div(pow2((-k - 1) as nat) as int, pow2((-k) as nat) as int);
        }
        assert(encode_unsigned(0u64, n, f) == 0);
    } else {
        lemma_decode_exact(false, b, f);
        let fb = decode_bits(false, b, f) as u64;
        assert(rhu(f64_mant(fb), f64_exp(fb) + f) == b);
        assert(encode_unsigned(fb, n, f) == b);
    }
}

} // verus!
