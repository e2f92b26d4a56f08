//! The laws of the certum family, stated and proved once over the value
//! model, for every width and signedness at once.  The round-trip laws for
//! the double codec stand beside the codec itself, in [`crate::codec`].

use vstd::prelude::*;
use vstd::arithmetic::power2::{pow2, lemma2_to64, lemma2_to64_rest, lemma_pow2_pos};
use crate::arith::lemma_split_top;
use crate::model::{
    min_bits, max_bits, full_mask, min_sval, max_sval, sat_signed, sat_unsigned, neg_sat,
    convert_signed, convert_unsigned, valid_signed_layout, valid_unsigned_layout,
};
use crate::codec::{
    encode_signed, encode_unsigned, f64_biased_exp, f64_mant_field, f64_neg, decode_bits,
    s_mag, s_is_neg, lemma_log2_below, lemma_round_trip_signed, lemma_round_trip_unsigned,
};
use crate::model::in_width;

verus! {

/// The stored bits of positive and negative double infinity.
pub open spec fn f64_pos_inf_bits() -> u64 {
    0x7FF0000000000000
}

/// The stored bits of negative double infinity.
pub open spec fn f64_neg_inf_bits() -> u64 {
    0xFFF0000000000000
}

/// Infinities encode to the exact bounds of every signed layout: positive
/// infinity to MAX, negative infinity to MIN.
pub proof fn lemma_signed_infinity_saturates(n: nat, f: nat)
    requires
        valid_signed_layout(n, f),
    ensures
        encode_signed(f64_pos_inf_bits(), n, f) == max_bits(n),
        encode_signed(f64_neg_inf_bits(), n, f) == min_bits(n),
{
    lemma2_to64();
    lemma2_to64_rest();
    assert(f64_biased_exp(0x7FF0000000000000u64) == 2047);
    assert(f64_mant_field(0x7FF0000000000000u64) == 0);
    assert(!f64_neg(0x7FF0000000000000u64));
    assert(f64_biased_exp(0xFFF0000000000000u64) == 2047);
    assert(f64_mant_field(0xFFF0000000000000u64) == 0);
    assert(f64_neg(0xFFF0000000000000u64));
}

/// Infinities encode to the exact bounds of every unsigned layout: positive
/// infinity to the all-ones MAX, negative infinity to zero.
pub proof fn lemma_unsigned_infinity_saturates(n: nat, f: nat)
    requires
        valid_unsigned_layout(n, f),
    ensures
        encode_unsigned(f64_pos_inf_bits(), n, f) == full_mask(n),
        encode_unsigned(f64_neg_inf_bits(), n, f) == 0,
{
    lemma2_to64();
    lemma2_to64_rest();
    assert(f64_biased_exp(0x7FF0000000000000u64) == 2047);
    assert(f64_mant_field(0x7FF0000000000000u64) == 0);
    assert(!f64_neg(0x7FF0000000000000u64));
    assert(f64_biased_exp(0xFFF0000000000000u64) == 2047);
    assert(f64_mant_field(0xFFF0000000000000u64) == 0);
    assert(f64_neg(0xFFF0000000000000u64));
}

/// Adding MAX to MAX saturates to MAX, and subtracting anything positive from
/// MIN saturates to MIN; in particular MIN minus one grain is MIN.
pub proof fn lemma_signed_saturation(n: nat, g: int)
    requires
        2 <= n <= 128,
        g >= 1,
    ensures
        sat_signed(max_sval(n) + max_sval(n), n) == max_sval(n),
        sat_signed(min_sval(n) - g, n) == min_sval(n),
{
    lemma_split_top(n);
}

/// The unsigned analogues: MAX plus MAX saturates to MAX, and zero minus a
/// grain stays zero.
pub proof fn lemma_unsigned_saturation(n: nat, g: int)
    requires
        1 <= n <= 128,
        g >= 1,
    ensures
        sat_unsigned(full_mask(n) as int + full_mask(n), n) == full_mask(n),
        sat_unsigned(0 - g, n) == 0,
{
    lemma_split_top(n);
}

/// Negating the most negative value of any signed width yields MAX, not MIN:
/// the magnitude of MIN has no positive counterpart.
pub proof fn lemma_neg_min_is_max(n: nat)
    requires
        2 <= n <= 128,
    ensures
        neg_sat(min_sval(n), n) == max_sval(n),
        neg_sat(max_sval(n), n) == min_sval(n) + 1,
{
    lemma_split_top(n);
}

/// Cross-width exactness at the bounds: converting any signed width's MIN
/// yields the target's MIN, and MAX the target's MAX, for every ordered pair
/// of layouts.
pub proof fn lemma_signed_bounds_convert_exactly(na: nat, fa: nat, nb: nat, fb: nat)
    requires
        valid_signed_layout(na, fa),
        valid_signed_layout(nb, fb),
    ensures
        convert_signed(min_bits(na), na, fa, nb, fb) == min_bits(nb),
        convert_signed(max_bits(na), na, fa, nb, fb) == max_bits(nb),
{
    lemma_split_top(na);
    lemma_split_top(nb);
}

/// Cross-width exactness at the bounds for the unsigned layouts: the all-ones
/// MAX maps to the target's all-ones MAX, and zero to zero.
pub proof fn lemma_unsigned_bounds_convert_exactly(na: nat, fa: nat, nb: nat, fb: nat)
    requires
        valid_unsigned_layout(na, fa),
        valid_unsigned_layout(nb, fb),
    ensures
        convert_unsigned(full_mask(na), na, fa, nb, fb) == full_mask(nb),
        convert_unsigned(0, na, fa, nb, fb) == 0,
{
    lemma_split_top(na);
    lemma_split_top(nb);
    if fb >= fa {
        vstd::arithmetic::mul::lemma_mul_basics_2(pow2((fb - fa) as nat) as int);
    } else {
        lemma_pow2_pos((fa - fb) as nat);
        vstd::arithmetic::div_mod::lemma_basic_div(0, pow2((fa - fb) as nat) as int);
    }
}

/// The wide-integer shift round trip: shifting left by k and back right by k
/// returns the value whenever no bit crosses the top of the 256-bit range.
pub proof fn lemma_wide_shift_round_trip(v: nat, k: nat)
    requires
        k <= 255,
        v * pow2(k) < pow2(256),
    ensures
        ((v * pow2(k)) % pow2(256)) / pow2(k) == v,
{
    lemma_pow2_pos(k);
    lemma_pow2_pos(256);
    vstd::arithmetic::div_mod::lemma_small_mod((v * pow2(k)) as nat, pow2(256));
    vstd::arithmetic::div_mod::lemma_div_by_multiple(v as int, pow2(k) as int);
    vstd::arithmetic::mul::lemma_mul_is_commutative(v as int, pow2(k) as int);
}


/// At widths up to 53 bits every magnitude fits a double's significand, so
/// the round trip through the codec is exact for every representable signed
/// certum, with no proviso.
pub proof fn lemma_round_trip_signed_narrow(b: nat, n: nat, f: nat)
    requires
        valid_signed_layout(n, f),
        n <= 53,
        in_width(b, n),
    ensures
        encode_signed(decode_bits(s_is_neg(b, n), s_mag(b, n), f) as u64, n, f) == b,
{
    lemma_split_top(n);
    let mag = s_mag(b, n);
    if mag >= 1 {
        assert(mag <= min_bits(n));
        if ((n - 1) as nat) < 53 {
            vstd::arithmetic::power2::lemma_pow2_strictly_increases((n - 1) as nat, 53);
        }
        lemma_log2_below(mag, 53);
    }
    lemma_round_trip_signed(b, n, f);
}

/// The unsigned analogue: every unsigned certum of width up to 53 bits
/// round-trips through the codec exactly.
pub proof fn lemma_round_trip_unsigned_narrow(b: nat, n: nat, f: nat)
    requires
        valid_unsigned_layout(n, f),
        n <= 53,
        in_width(b, n),
    ensures
        encode_unsigned(decode_bits(false, b, f) as u64, n, f) == b,
{
    lemma_split_top(n);
    if b >= 1 {
        if n < 53 {
            vstd::arithmetic::power2::lemma_pow2_strictly_increases(n, 53);
        }
        lemma_log2_below(b, 53);
    }
    lemma_round_trip_unsigned(b, n, f);
}

} // verus!
