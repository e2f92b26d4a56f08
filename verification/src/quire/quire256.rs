//! A 256-bit unsigned integer built from two 128-bit words.
//!
//! `u256` exists to hold the full double-width product of two 128-bit certum
//! magnitudes, so that rescaling after a multiplication never discards the top
//! of the true product.  Addition and subtraction saturate at the ends of the
//! 256-bit range; the shifts move bits across the word boundary.

use vstd::prelude::*;
use vstd::arithmetic::power2::{
    pow2, lemma2_to64, lemma_pow2_adds, lemma_pow2_pos, lemma_pow2_strictly_increases,
};
use vstd::arithmetic::mul::{
    lemma_mul_inequality, lemma_mul_upper_bound, lemma_mul_is_associative,
    lemma_mul_is_commutative, lemma_mul_is_distributive_add,
    lemma_mul_is_distributive_add_other_way, lemma_mul_strict_inequality,
};
use vstd::arithmetic::div_mod::{
    lemma_fundamental_div_mod, lemma_fundamental_div_mod_converse_div,
    lemma_fundamental_div_mod_converse_mod, lemma_multiply_divide_lt,
};
use crate::arith::pow2_u128;

verus! {

/// A 256-bit unsigned integer: a high and a low 128-bit word.
#[derive(Copy, Clone, Debug, PartialEq, Eq, Structural)]
#[allow(non_camel_case_types)]
pub struct u256 {
    pub hi: u128,
    pub lo: u128,
}

/// pow2(256) and pow2(128) as one fact each.
pub proof fn lemma_pow2_words()
    ensures
        pow2(128) == 0x100000000000000000000000000000000,
        pow2(256) == pow2(128) * pow2(128),
        pow2(256) > 0x100000000000000000000000000000000,
{
    lemma2_to64();
    lemma_pow2_adds(64, 64);
    lemma_pow2_adds(128, 128);
    lemma_pow2_strictly_increases(128, 256);
}

impl u256 {
    /// The numeric value: high word times 2^128 plus low word.
    pub open spec fn val(&self) -> nat {
        (self.hi * pow2(128) + self.lo) as nat
    }

    /// Build a value directly from its two 128-bit words, high word first.
    pub fn raw(arr: [u128; 2]) -> (r: Self)
        ensures
            r.hi == arr[0],
            r.lo == arr[1],
    {
        let hi = arr[0];
        let lo = arr[1];
        Self { hi, lo }
    }

    /// The zero value.
    pub fn zero() -> (r: Self)
        ensures
            r.val() == 0,
    {
        proof {
            vstd::arithmetic::mul::lemma_mul_basics_2(pow2(128) as int);
        }
        Self { hi: 0, lo: 0 }
    }

    /// The largest 256-bit value.
    pub fn max_value() -> (r: Self)
        ensures
            r.val() == pow2(256) - 1,
    {
        proof {
            lemma_pow2_words();
        }
        Self { hi: u128::MAX, lo: u128::MAX }
    }

    /// Widen a 128-bit value.
    pub fn from_u128(v: u128) -> (r: Self)
        ensures
            r.val() == v,
    {
        proof {
            vstd::arithmetic::mul::lemma_mul_basics_2(pow2(128) as int);
        }
        Self { hi: 0, lo: v }
    }

    /// The low 128-bit word: the value reduced mod 2^128, as a cast to a
    /// narrower integer would do.
    pub fn lo_word(&self) -> (r: u128)
        ensures
            r == self.lo,
            r as nat == self.val() % pow2(128),
    {
        proof {
            lemma_pow2_words();
            lemma_fundamental_div_mod_converse_mod(
                self.val() as int,
                pow2(128) as int,
                self.hi as int,
                self.lo as int,
            );
        }
        self.lo
    }

    /// The high 128-bit word: the value divided by 2^128.
    pub fn hi_word(&self) -> (r: u128)
        ensures
            r == self.hi,
            r as nat == self.val() / pow2(128),
    {
        proof {
            lemma_pow2_words();
            lemma_fundamental_div_mod_converse_div(
                self.val() as int,
                pow2(128) as int,
                self.hi as int,
                self.lo as int,
            );
        }
        self.hi
    }

    /// Whether two values are equal.
    pub fn same(&self, other: &Self) -> (r: bool)
        ensures
            r == (self.val() == other.val()),
    {
        proof {
            if self.hi != other.hi || self.lo != other.lo {
                if self.val() == other.val() {
                    lemma_pow2_words();
                    lemma_fundamental_div_mod_converse_mod(
                        self.val() as int,
                        pow2(128) as int,
                        self.hi as int,
                        self.lo as int,
                    );
                    lemma_fundamental_div_mod_converse_mod(
                        other.val() as int,
                        pow2(128) as int,
                        other.hi as int,
                        other.lo as int,
                    );
                    lemma_fundamental_div_mod_converse_div(
                        self.val() as int,
                        pow2(128) as int,
                        self.hi as int,
                        self.lo as int,
                    );
                    lemma_fundamental_div_mod_converse_div(
                        other.val() as int,
                        pow2(128) as int,
                        other.hi as int,
                        other.lo as int,
                    );
                }
            }
        }
        self.hi == other.hi && self.lo == other.lo
    }

    /// Whether this value is below another.
    pub fn below(&self, other: &Self) -> (r: bool)
        ensures
            r == (self.val() < other.val()),
    {
        proof {
            lemma_pow2_words();
            if self.hi < other.hi {
                lemma_mul_strict_inequality(
                    self.hi as int,
                    other.hi as int,
                    pow2(128) as int,
                );
            }
            if other.hi < self.hi {
                lemma_mul_strict_inequality(
                    other.hi as int,
                    self.hi as int,
                    pow2(128) as int,
                );
            }
        }
        self.hi < other.hi || (self.hi == other.hi && self.lo
            < other.lo)
    }

    /// Saturating addition: a sum that would not fit 256 bits yields the
    /// all-ones maximum.
    pub fn add(self, rhs: Self) -> (r: Self)
        ensures
            r.val() == if self.val() + rhs.val() >= pow2(256) {
                (pow2(256) - 1) as nat
            } else {
                self.val() + rhs.val()
            },
    {
        proof {
            lemma_pow2_words();
            vstd::arithmetic::mul::lemma_mul_is_distributive_add_other_way(
                pow2(128) as int,
                self.hi as int,
                rhs.hi as int,
            );
            lemma_mul_inequality(
                (self.hi + rhs.hi) as int,
                (2 * (pow2(128) - 1)) as int,
                pow2(128) as int,
            );
            lemma_mul_is_distributive_add_other_way(
                pow2(128) as int,
                (self.hi + rhs.hi) as int,
                1,
            );
        }
        let (lo, carry): (u128, u128) = if rhs.lo <= u128::MAX - self.lo {
            (self.lo + rhs.lo, 0)
        } else {
            (rhs.lo - (u128::MAX - self.lo) - 1, 1)
        };
        if self.hi <= u128::MAX - rhs.hi {
            let hi_part = self.hi + rhs.hi;
            if carry <= u128::MAX - hi_part {
                Self { hi: hi_part + carry, lo }
            } else {
                Self { hi: u128::MAX, lo: u128::MAX }
            }
        } else {
            Self { hi: u128::MAX, lo: u128::MAX }
        }
    }

    /// Saturating subtraction: a difference below zero yields zero.
    pub fn sub(self, rhs: Self) -> (r: Self)
        ensures
            r.val() == if rhs.val() > self.val() {
                0
            } else {
                (self.val() - rhs.val()) as nat
            },
    {
        proof {
            lemma_pow2_words();
            vstd::arithmetic::mul::lemma_mul_is_distributive_sub_other_way(
                pow2(128) as int,
                self.hi as int,
                rhs.hi as int,
            );
            vstd::arithmetic::mul::lemma_mul_is_distributive_sub_other_way(
                pow2(128) as int,
                (self.hi - rhs.hi) as int,
                1,
            );
            if self.hi < rhs.hi {
                lemma_mul_strict_inequality(
                    self.hi as int,
                    rhs.hi as int,
                    pow2(128) as int,
                );
            }
            if rhs.hi < self.hi {
                lemma_mul_strict_inequality(
                    rhs.hi as int,
                    self.hi as int,
                    pow2(128) as int,
                );
            }
        }
        if self.hi < rhs.hi || (self.hi == rhs.hi && self.lo
            < rhs.lo) {
            return Self { hi: 0, lo: 0 };
        }
        if rhs.lo <= self.lo {
            Self { hi: self.hi - rhs.hi, lo: self.lo - rhs.lo }
        } else {
            Self { hi: self.hi - rhs.hi - 1, lo: self.lo + (u128::MAX - rhs.lo) + 1 }
        }
    }
}


/// Every u256 value is below 2^256.
pub proof fn lemma_u256_val_bound(x: u256)
    ensures
        x.val() < pow2(256),
{
    lemma_pow2_words();
    lemma_mul_inequality(
        x.hi as int,
        (pow2(128) - 1) as int,
        pow2(128) as int,
    );
}

/// Splitting a shifted two-word value at the 2^256 boundary, small shifts:
/// a pure polynomial identity over the word decompositions.
proof fn lemma_shl_small_split(hq: int, hr: int, lq: int, lr: int, d: int, p: int, pbig: int, q: int)
    by (nonlinear_arith)
    requires
        d * p == pbig,
        pbig * pbig == q,
    ensures
        ((hq * d + hr) * pbig + (lq * d + lr)) * p == hq * q + ((hr * p + lq) * pbig + lr * p),
{
}

/// Splitting a shifted two-word value at the 2^256 boundary, shifts of at
/// least one whole word.
proof fn lemma_shl_big_split(hi: int, lq: int, rm: int, dk: int, p2: int, p: int, pbig: int, q: int)
    requires
        p == p2 * pbig,
        dk * p == q,
        pbig * pbig == q,
    ensures
        (hi * pbig + (lq * dk + rm)) * p == (hi * p2 + lq) * q + (rm * p2) * pbig,
{
    broadcast use vstd::arithmetic::mul::group_mul_is_commutative_and_distributive;

    assert((hi * pbig + (lq * dk + rm)) * p == hi * pbig * p + lq * dk * p + rm * p);
    assert(hi * pbig * p == hi * p2 * q) by {
        lemma_mul_is_associative(hi, pbig, p);
        assert(pbig * p == pbig * (p2 * pbig));
        lemma_mul_is_associative(pbig, p2, pbig);
        lemma_mul_is_commutative(pbig, p2);
        lemma_mul_is_associative(p2, pbig, pbig);
        assert(pbig * p == p2 * q);
        lemma_mul_is_associative(hi, p2, q);
    }
    assert(lq * dk * p == lq * q) by {
        lemma_mul_is_associative(lq, dk, p);
    }
    assert(rm * p == rm * p2 * pbig) by {
        lemma_mul_is_associative(rm, p2, pbig);
    }
    assert((hi * p2 + lq) * q == hi * p2 * q + lq * q);
}

/// A whole-word left shift multiplies the high word out past 2^256.
proof fn lemma_shl_word_split(hi: int, lo: int, pbig: int, q: int)
    by (nonlinear_arith)
    requires
        pbig * pbig == q,
    ensures
        (hi * pbig + lo) * pbig == hi * q + lo * pbig,
{
}

/// Regrouping a two-word value around division by 2^k, small shifts.
proof fn lemma_shr_small_split(hq: int, hr: int, lq: int, lr: int, p: int, dl: int, pbig: int)
    by (nonlinear_arith)
    requires
        dl * p == pbig,
    ensures
        (hq * p + hr) * pbig + (lq * p + lr) == (hq * pbig + (hr * dl + lq)) * p + lr,
{
}

/// Regrouping a two-word value around division by 2^k, shifts of at least one
/// whole word; the remainder stays below the divisor.
proof fn lemma_shr_big_split(q0: int, hr: int, lo: int, dk: int, pbig: int, p: int)
    by (nonlinear_arith)
    requires
        p == dk * pbig,
        0 <= hr < dk,
        0 <= lo < pbig,
    ensures
        (q0 * dk + hr) * pbig + lo == q0 * p + (hr * pbig + lo),
        hr * pbig + lo < p,
{
}

impl u256 {
    /// Left shift by `k` bits, 0 to 255: the value scaled by 2^k, with the
    /// bits pushed past the top discarded (reduction mod 2^256).
    pub fn shl(self, k: u32) -> (r: Self)
        requires
            k <= 255,
        ensures
            r.val() == (self.val() * pow2(k as nat)) % pow2(256),
    {
        proof {
            lemma_pow2_words();
        }
        if k == 0 {
            proof {
                lemma2_to64();
                vstd::arithmetic::mul::lemma_mul_basics_3(self.val() as int);
                lemma_u256_val_bound(self);
                vstd::arithmetic::div_mod::lemma_small_mod(self.val(), pow2(256));
            }
            return self;
        }
        if k == 128 {
            let r = Self { hi: self.lo, lo: 0 };
            proof {
                lemma_shl_word_split(
                    self.hi as int,
                    self.lo as int,
                    pow2(128) as int,
                    pow2(256) as int,
                );
                lemma_u256_val_bound(r);
                lemma_fundamental_div_mod_converse_mod(
                    (self.val() * pow2(128)) as int,
                    pow2(256) as int,
                    self.hi as int,
                    r.val() as int,
                );
            }
            return r;
        }
        if k > 128 {
            let dk = pow2_u128(256 - k);
            let pk2 = pow2_u128(k - 128);
            proof {
                lemma_pow2_pos((256 - k) as nat);
                lemma_pow2_adds((256 - k) as nat, (k - 128) as nat);
                lemma_mul_strict_inequality((self.lo % dk) as int, dk as int, pk2 as int);
            }
            let rm = self.lo % dk;
            let r = Self { hi: rm * pk2, lo: 0 };
            proof {
                let lq = self.lo as int / dk as int;
                lemma_fundamental_div_mod(self.lo as int, dk as int);
                lemma_pow2_adds((k - 128) as nat, 128);
                lemma_pow2_adds((256 - k) as nat, k as nat);
                lemma_shl_big_split(
                    self.hi as int,
                    lq,
                    rm as int,
                    dk as int,
                    pk2 as int,
                    pow2(k as nat) as int,
                    pow2(128) as int,
                    pow2(256) as int,
                );
                lemma_u256_val_bound(r);
                lemma_fundamental_div_mod_converse_mod(
                    (self.val() * pow2(k as nat)) as int,
                    pow2(256) as int,
                    (self.hi * pow2((k - 128) as nat) + lq) as int,
                    r.val() as int,
                );
            }
            return r;
        }
        // 1 <= k <= 127
        let d = pow2_u128(128 - k);
        let pk = pow2_u128(k);
        proof {
            lemma_pow2_pos((128 - k) as nat);
            lemma_pow2_pos(k as nat);
            lemma_pow2_adds((128 - k) as nat, k as nat);
            lemma_mul_inequality((self.hi % d) as int, (d - 1) as int, pk as int);
            lemma_mul_inequality((self.lo % d) as int, (d - 1) as int, pk as int);
            vstd::arithmetic::mul::lemma_mul_is_distributive_sub_other_way(pk as int, d as int, 1);
            lemma_multiply_divide_lt(self.lo as int, d as int, pk as int);
        }
        let hi2 = (self.hi % d) * pk + self.lo / d;
        let lo2 = (self.lo % d) * pk;
        let r = Self { hi: hi2, lo: lo2 };
        proof {
            let hq = self.hi as int / d as int;
            lemma_fundamental_div_mod(self.hi as int, d as int);
            lemma_fundamental_div_mod(self.lo as int, d as int);
            lemma_shl_small_split(
                hq,
                (self.hi % d) as int,
                self.lo as int / d as int,
                (self.lo % d) as int,
                d as int,
                pow2(k as nat) as int,
                pow2(128) as int,
                pow2(256) as int,
            );
            lemma_u256_val_bound(r);
            lemma_fundamental_div_mod_converse_mod(
                (self.val() * pow2(k as nat)) as int,
                pow2(256) as int,
                hq,
                r.val() as int,
            );
        }
        r
    }

    /// Right shift by `k` bits, 0 to 255: division of the value by 2^k.
    pub fn shr(self, k: u32) -> (r: Self)
        requires
            k <= 255,
        ensures
            r.val() == self.val() / pow2(k as nat),
    {
        proof {
            lemma_pow2_words();
            lemma2_to64();
        }
        if k == 0 {
            proof {
                vstd::arithmetic::div_mod::lemma_fundamental_div_mod_converse_div(
                    self.val() as int,
                    1,
                    self.val() as int,
                    0,
                );
            }
            return self;
        }
        if k >= 128 {
            let dk = pow2_u128(k - 128);
            proof {
                lemma_pow2_pos((k - 128) as nat);
            }
            let q = self.hi / dk;
            let r = Self { hi: 0, lo: q };
            proof {
                lemma_fundamental_div_mod(self.hi as int, dk as int);
                lemma_pow2_adds((k - 128) as nat, 128);
                lemma_shr_big_split(
                    q as int,
                    (self.hi % dk) as int,
                    self.lo as int,
                    dk as int,
                    pow2(128) as int,
                    pow2(k as nat) as int,
                );
                lemma_fundamental_div_mod_converse_div(
                    self.val() as int,
                    pow2(k as nat) as int,
                    q as int,
                    ((self.hi % dk) * pow2(128) + self.lo) as int,
                );
                vstd::arithmetic::mul::lemma_mul_basics_2(pow2(128) as int);
            }
            return r;
        }
        // 1 <= k <= 127
        let pk = pow2_u128(k);
        let dl = pow2_u128(128 - k);
        proof {
            lemma_pow2_pos(k as nat);
            lemma_pow2_pos((128 - k) as nat);
            lemma_pow2_adds(k as nat, (128 - k) as nat);
            lemma_pow2_adds((128 - k) as nat, k as nat);
            lemma_mul_inequality((self.hi % pk) as int, (pk - 1) as int, dl as int);
            vstd::arithmetic::mul::lemma_mul_is_distributive_sub_other_way(dl as int, pk as int, 1);
            lemma_multiply_divide_lt(self.lo as int, pk as int, dl as int);
        }
        let hi2 = self.hi / pk;
        let lo2 = (self.hi % pk) * dl + self.lo / pk;
        let r = Self { hi: hi2, lo: lo2 };
        proof {
            lemma_fundamental_div_mod(self.hi as int, pk as int);
            lemma_fundamental_div_mod(self.lo as int, pk as int);
            lemma_shr_small_split(
                hi2 as int,
                (self.hi % pk) as int,
                self.lo as int / pk as int,
                (self.lo % pk) as int,
                pk as int,
                dl as int,
                pow2(128) as int,
            );
            lemma_fundamental_div_mod_converse_div(
                self.val() as int,
                pk as int,
                (hi2 * pow2(128) + ((self.hi % pk) * dl + self.lo as int / pk as int)) as int,
                (self.lo % pk) as int,
            );
        }
        r
    }
}


/// Schoolbook expansion of a 128x128 product into 64-bit quarters.
proof fn lemma_mul_quarters(a: int, b: int, a1: int, a0: int, b1: int, b0: int, s: int)
    requires
        a == a1 * s + a0,
        b == b1 * s + b0,
    ensures
        a * b == (a1 * b1) * (s * s) + ((a0 * b1) * s + (a1 * b0) * s) + a0 * b0,
{
    broadcast use vstd::arithmetic::mul::group_mul_is_commutative_and_distributive;

    assert(a * b == (a1 * s) * b + a0 * b);
    assert((a1 * s) * b == (a1 * s) * (b1 * s) + (a1 * s) * b0);
    assert((a1 * s) * (b1 * s) == (a1 * b1) * (s * s)) by {
        lemma_mul_is_associative(a1 * s, b1, s);
        lemma_mul_is_commutative(a1 * s, b1);
        lemma_mul_is_associative(b1, a1, s);
        lemma_mul_is_commutative(b1, a1);
        lemma_mul_is_associative(a1 * b1, s, s);
    }
    assert((a1 * s) * b0 == (a1 * b0) * s) by {
        lemma_mul_is_associative(a1, s, b0);
        lemma_mul_is_commutative(s, b0);
        lemma_mul_is_associative(a1, b0, s);
    }
    assert(a0 * (b1 * s) == (a0 * b1) * s) by {
        lemma_mul_is_associative(a0, b1, s);
    }
    assert(a0 * b == a0 * (b1 * s) + a0 * b0);
}

/// Recombining the quarters of a product at the word boundary: with
/// S = 2^64 and P = S * S = 2^128, the grouped words equal the raw quarters.
proof fn lemma_mul_regroup(
    p11: int,
    p01: int,
    p10: int,
    p00: int,
    t: int,
    s: int,
    pbig: int,
)
    requires
        s * s == pbig,
        t == p00 / s + p01 % s + p10 % s,
        0 <= p00,
        0 <= p01,
        0 <= p10,
        s > 0,
    ensures
        (p11 + p01 / s + p10 / s + t / s) * pbig + (p00 % s + (t % s) * s) == p11 * pbig + (p01 * s
            + p10 * s) + p00,
{
    broadcast use vstd::arithmetic::mul::group_mul_is_commutative_and_distributive;

    lemma_fundamental_div_mod(p00, s);
    lemma_fundamental_div_mod(p01, s);
    lemma_fundamental_div_mod(p10, s);
    lemma_fundamental_div_mod(t, s);
    let lhs = (p11 + p01 / s + p10 / s + t / s) * pbig + (p00 % s + (t % s) * s);
    assert(lhs == p11 * pbig + (p01 / s) * pbig + (p10 / s) * pbig + (t / s) * pbig + p00 % s + (t
        % s) * s);
    assert((t / s) * pbig == ((t / s) * s) * s) by {
        lemma_mul_is_associative(t / s, s, s);
    }
    assert(((t / s) * s) * s + (t % s) * s == t * s) by {
        assert(t == s * (t / s) + t % s);
        lemma_mul_is_commutative(s, t / s);
    }
    assert(t * s == (p00 / s) * s + (p01 % s) * s + (p10 % s) * s);
    assert((p01 / s) * pbig == ((p01 / s) * s) * s) by {
        lemma_mul_is_associative(p01 / s, s, s);
    }
    assert((p10 / s) * pbig == ((p10 / s) * s) * s) by {
        lemma_mul_is_associative(p10 / s, s, s);
    }
    assert(((p01 / s) * s) * s + (p01 % s) * s == p01 * s) by {
        assert(p01 == s * (p01 / s) + p01 % s);
        lemma_mul_is_commutative(s, p01 / s);
    }
    assert(((p10 / s) * s) * s + (p10 % s) * s == p10 * s) by {
        assert(p10 == s * (p10 / s) + p10 % s);
        lemma_mul_is_commutative(s, p10 / s);
    }
    assert((p00 / s) * s + p00 % s == p00) by {
        assert(p00 == s * (p00 / s) + p00 % s);
        lemma_mul_is_commutative(s, p00 / s);
    }
}

impl u256 {
    /// The full 256-bit product of two 128-bit values, by schoolbook
    /// multiplication on 64-bit quarters.
    pub fn mul_u128s(lhs: u128, rhs: u128) -> (r: Self)
        ensures
            r.val() == lhs * rhs,
    {
        proof {
            lemma_pow2_words();
            lemma2_to64();
        }
        let s: u128 = 0x10000000000000000;
        let a1 = lhs / s;
        let a0 = lhs % s;
        let b1 = rhs / s;
        let b0 = rhs % s;
        proof {
            lemma_mul_upper_bound(a1 as int, (s - 1) as int, b1 as int, (s - 1) as int);
            lemma_mul_upper_bound(a0 as int, (s - 1) as int, b1 as int, (s - 1) as int);
            lemma_mul_upper_bound(a1 as int, (s - 1) as int, b0 as int, (s - 1) as int);
            lemma_mul_upper_bound(a0 as int, (s - 1) as int, b0 as int, (s - 1) as int);
        }
        let p11 = a1 * b1;
        let p01 = a0 * b1;
        let p10 = a1 * b0;
        let p00 = a0 * b0;
        let t = p00 / s + (p01 % s) + (p10 % s);
        let lo = (p00 % s) + (t % s) * s;
        let hi = p11 + (p01 / s) + (p10 / s) + (t / s);
        proof {
            lemma_fundamental_div_mod(lhs as int, s as int);
            lemma_fundamental_div_mod(rhs as int, s as int);
            lemma_mul_is_commutative(s as int, a1 as int);
            lemma_mul_is_commutative(s as int, b1 as int);
            lemma_mul_quarters(
                lhs as int,
                rhs as int,
                a1 as int,
                a0 as int,
                b1 as int,
                b0 as int,
                s as int,
            );
            lemma_mul_regroup(
                p11 as int,
                p01 as int,
                p10 as int,
                p00 as int,
                t as int,
                s as int,
                pow2(128) as int,
            );
        }
        Self { hi, lo }
    }

    /// The 256-bit product of two 256-bit values, saturating: a product past
    /// the 256-bit range yields the all-ones maximum.
    pub fn saturating_mul(self, other: Self) -> (r: Self)
        ensures
            r.val() == if self.val() * other.val() >= pow2(256) {
                (pow2(256) - 1) as nat
            } else {
                self.val() * other.val()
            },
    {
        proof {
            lemma_pow2_words();
        }
        if self.hi != 0 && other.hi != 0 {
            proof {
                lemma_saturating_mul_top(
                    self.hi as int,
                    self.lo as int,
                    other.hi as int,
                    other.lo as int,
                    pow2(128) as int,
                    pow2(256) as int,
                );
            }
            return Self { hi: u128::MAX, lo: u128::MAX };
        }
        let cross = if self.hi != 0 {
            Self::mul_u128s(self.hi, other.lo)
        } else {
            Self::mul_u128s(other.hi, self.lo)
        };
        let low = Self::mul_u128s(self.lo, other.lo);
        proof {
            lemma_saturating_mul_split(
                self.hi as int,
                self.lo as int,
                other.hi as int,
                other.lo as int,
                pow2(128) as int,
                pow2(256) as int,
            );
            lemma_u256_val_bound(low);
            lemma_u256_val_bound(cross);
        }
        if cross.hi != 0 {
            proof {
                lemma_mul_inequality(
                    pow2(128) as int,
                    cross.val() as int,
                    pow2(128) as int,
                );
                lemma_mul_is_commutative(pow2(128) as int, cross.val() as int);
            }
            return Self { hi: u128::MAX, lo: u128::MAX };
        }
        proof {
            vstd::arithmetic::mul::lemma_mul_basics_2(pow2(128) as int);
            lemma_mul_is_distributive_add_other_way(
                pow2(128) as int,
                low.hi as int,
                cross.lo as int,
            );
        }
        if cross.lo <= u128::MAX - low.hi {
            Self { hi: low.hi + cross.lo, lo: low.lo }
        } else {
            Self { hi: u128::MAX, lo: u128::MAX }
        }
    }
}

/// Both high words nonzero forces the product past 2^256.
proof fn lemma_saturating_mul_top(ah: int, al: int, bh: int, bl: int, pbig: int, q: int)
    by (nonlinear_arith)
    requires
        ah >= 1,
        bh >= 1,
        al >= 0,
        bl >= 0,
        pbig > 0,
        pbig * pbig == q,
    ensures
        (ah * pbig + al) * (bh * pbig + bl) >= q,
{
}

/// With at most one nonzero high word, the product splits into the low
/// product plus 2^128 times the cross product.
proof fn lemma_saturating_mul_split(ah: int, al: int, bh: int, bl: int, pbig: int, q: int)
    by (nonlinear_arith)
    requires
        ah == 0 || bh == 0,
        pbig * pbig == q,
    ensures
        (ah * pbig + al) * (bh * pbig + bl) == al * bl + (ah * bl + bh * al) * pbig,
{
}


impl u256 {
    /// Word-wise bitwise AND.
    pub fn bitand(self, rhs: Self) -> (r: Self)
        ensures
            r.hi == self.hi & rhs.hi,
            r.lo == self.lo & rhs.lo,
    {
        Self { hi: self.hi & rhs.hi, lo: self.lo & rhs.lo }
    }

    /// Word-wise bitwise OR.
    pub fn bitor(self, rhs: Self) -> (r: Self)
        ensures
            r.hi == self.hi | rhs.hi,
            r.lo == self.lo | rhs.lo,
    {
        Self { hi: self.hi | rhs.hi, lo: self.lo | rhs.lo }
    }

    /// Word-wise bitwise XOR.
    pub fn bitxor(self, rhs: Self) -> (r: Self)
        ensures
            r.hi == self.hi ^ rhs.hi,
            r.lo == self.lo ^ rhs.lo,
    {
        Self { hi: self.hi ^ rhs.hi, lo: self.lo ^ rhs.lo }
    }
}

} // verus!
