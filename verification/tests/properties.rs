// Concrete checks of the family's laws: round trips, saturation, negation at
// the bounds, cross-width exactness, multiplication, and the wide integer.

use certums::{c128, c16, c32, c64, c8, u256, uc128, uc16, uc64, uc8, utils};

fn c8_from(v: f64) -> c8 {
    c8::from_f64_bits(v.to_bits())
}

fn c64_from(v: f64) -> c64 {
    c64::from_f64_bits(v.to_bits())
}

fn c128_from(v: f64) -> c128 {
    c128::from_f64_bits(v.to_bits())
}

fn uc8_from(v: f64) -> uc8 {
    uc8::from_f64_bits(v.to_bits())
}

fn uc64_from(v: f64) -> uc64 {
    uc64::from_f64_bits(v.to_bits())
}

fn c8_to_f64(v: c8) -> f64 {
    f64::from_bits(v.to_f64_bits())
}

fn c128_to_f64(v: c128) -> f64 {
    f64::from_bits(v.to_f64_bits())
}

#[test]
fn round_trip_every_c8() {
    // Every 8-bit signed pattern survives the double codec unchanged.
    for b in 0..=255u8 {
        let x = c8::of(b);
        assert_eq!(c8::from_f64_bits(x.to_f64_bits()).bits, b);
    }
}

#[test]
fn round_trip_every_c16() {
    for b in 0..=65535u16 {
        let x = c16::of(b);
        assert_eq!(c16::from_f64_bits(x.to_f64_bits()).bits, b);
    }
}

#[test]
fn round_trip_every_uc16() {
    for b in 0..=65535u16 {
        let x = uc16::of(b);
        assert_eq!(uc16::from_f64_bits(x.to_f64_bits()).bits, b);
    }
}

#[test]
fn round_trip_c32_samples() {
    for b in [0u32, 1, 2, 0x3243F6A9, 0x7FFFFFFF, 0x80000000, 0x80000001, 0xFFFFFFFF] {
        let x = c32::of(b);
        assert_eq!(c32::from_f64_bits(x.to_f64_bits()).bits, b);
    }
}

#[test]
fn round_trip_c64_exact_values() {
    // 64-bit patterns whose magnitude fits 53 significant bits round-trip;
    // the type's own MIN does too, its magnitude being a single bit.
    for b in [0u64, 1, 0x1921FB54442D1800, 0x000FFFFFFFFFFFFF, 0x8000000000000000] {
        let x = c64::of(b);
        assert_eq!(c64::from_f64_bits(x.to_f64_bits()).bits, b);
    }
}

#[test]
fn saturation_at_infinity() {
    assert_eq!(c8_from(f64::INFINITY), c8::max());
    assert_eq!(c8_from(f64::NEG_INFINITY), c8::min());
    assert_eq!(c64_from(f64::INFINITY), c64::max());
    assert_eq!(c64_from(f64::NEG_INFINITY), c64::min());
    assert_eq!(c128_from(f64::INFINITY), c128::max());
    assert_eq!(c128_from(f64::NEG_INFINITY), c128::min());
    assert_eq!(uc8_from(f64::INFINITY), uc8::max());
    assert_eq!(uc8_from(f64::NEG_INFINITY), uc8::min());
    assert_eq!(uc64_from(f64::INFINITY), uc64::max());
    assert_eq!(uc64_from(f64::NEG_INFINITY), uc64::min());
}

#[test]
fn saturation_in_arithmetic() {
    assert_eq!(c8::max().add(c8::max()), c8::max());
    assert_eq!(c8::min().sub(c8::grain()), c8::min());
    assert_eq!(c64::max().add(c64::max()), c64::max());
    assert_eq!(c64::min().sub(c64::grain()), c64::min());
    assert_eq!(c128::max().add(c128::max()), c128::max());
    assert_eq!(c128::min().sub(c128::grain()), c128::min());
    assert_eq!(uc8::max().add(uc8::max()), uc8::max());
    assert_eq!(uc8::min().sub(uc8::grain()), uc8::min());
    assert_eq!(uc128::max().add(uc128::max()), uc128::max());
    assert_eq!(uc128::min().sub(uc128::grain()), uc128::min());
}

#[test]
fn negating_min_yields_max() {
    assert_eq!(c8::min().neg(), c8::max());
    assert_eq!(c16::min().neg(), c16::max());
    assert_eq!(c32::min().neg(), c32::max());
    assert_eq!(c64::min().neg(), c64::max());
    assert_eq!(c128::min().neg(), c128::max());
    // Ordinary values negate exactly.
    assert_eq!(c8_from(-0.25).neg(), c8_from(0.25));
    assert_eq!(c8_from(0.25).neg(), c8_from(-0.25));
    assert_eq!(c8::of(0).neg(), c8::of(0));
}

#[test]
fn bounds_convert_exactly_between_middle_widths() {
    assert_eq!(c32::from_c16(c16::min()), c32::min());
    assert_eq!(c32::from_c16(c16::max()), c32::max());
    assert_eq!(c16::from_c64(c64::min()), c16::min());
    assert_eq!(c16::from_c64(c64::max()), c16::max());
    assert_eq!(c64::from_c32(c32::min()), c64::min());
    assert_eq!(c64::from_c32(c32::max()), c64::max());
    assert_eq!(c128::from_c16(c16::min()), c128::min());
    assert_eq!(c128::from_c16(c16::max()), c128::max());
    assert_eq!(uc16::from_uc8(uc8::max()), uc16::max());
    assert_eq!(uc8::from_uc16(uc16::max()), uc8::max());
    assert_eq!(uc128::from_uc8(uc8::max()), uc128::max());
}

#[test]
fn ordinary_values_convert_by_value() {
    // 0.75 in c8 grains is 48; widening scales it into the added fraction
    // bits, narrowing drops them again.
    let x = c8_from(0.75);
    let w = c16::from_c8(x);
    assert_eq!(w.bits, 48 << 7);
    assert_eq!(c8::from_c16(w), x);
    // A value past the narrow type's range saturates when narrowing.
    let big = c16::from_f64_bits(3.5f64.to_bits());
    assert_eq!(c8::from_c16(big), c8::max());
    let low = c16::from_f64_bits((-3.5f64).to_bits());
    assert_eq!(c8::from_c16(low), c8::min());
}

#[test]
fn multiplication_is_exact_within_range() {
    assert_eq!(c8_from(0.5).mul(c8_from(0.5)), c8_from(0.25));
    assert_eq!(c8_from(0.5).mul(c8_from(-0.5)), c8_from(-0.25));
    assert_eq!(c8_from(-0.5).mul(c8_from(-0.5)), c8_from(0.25));
    assert_eq!(c8::max().mul(c8::max()), c8::max());
    assert_eq!(c8::min().mul(c8::max()), c8::min());
    assert_eq!(c64_from(2.0).mul(c64_from(3.0)), c64_from(6.0));
    assert_eq!(uc64_from(2.5).mul(uc64_from(4.0)), uc64_from(10.0));
}

#[test]
fn wide_multiplication_decodes_exactly() {
    let six = c128_from(2.0).mul(c128_from(3.0));
    assert_eq!(c128_to_f64(six), 6.0);
    assert_eq!(six, c128_from(6.0));
    let quarter = c128_from(0.5).mul(c128_from(0.5));
    assert_eq!(quarter, c128_from(0.25));
    let minus = c128_from(2.0).mul(c128_from(-3.0));
    assert_eq!(c128_to_f64(minus), -6.0);
    assert_eq!(c128::max().mul(c128::max()), c128::max());
    assert_eq!(c128::min().mul(c128::max()), c128::min());
}

#[test]
fn nan_encodes_as_zero() {
    // The family's stated decision for the open NaN question: NaN maps to
    // the zero pattern, on every width and signedness.
    assert_eq!(c8_from(f64::NAN).bits, 0);
    assert_eq!(c64_from(f64::NAN).bits, 0);
    assert_eq!(c128_from(f64::NAN).bits, 0);
    assert_eq!(uc8_from(f64::NAN).bits, 0);
    assert_eq!(uc64_from(f64::NAN).bits, 0);
}

#[test]
fn signs_and_components() {
    assert_eq!(c8::of(0b01001001).sign(), 1);
    assert_eq!(c8::of(0).sign(), 0);
    assert_eq!(c8_from(-0.25).sign(), -1);
    assert_eq!(c8::of(0b01001001).bin_sign(), 0);
    assert_eq!(c8_from(-0.25).bin_sign(), 1);
    assert_eq!(c8::of(0b01001001).sign_inverter(), 0x7F);
    assert_eq!(c8_from(-0.25).sign_inverter(), 0x80);
    assert_eq!(c8::of(0b01001001).components(), (1, 1, 0b00100100));
    assert_eq!(uc8::pi().components(), (3, 0b00100100));
    assert_eq!(c8::of(0b01001001).as_signed_bits(), 73);
    assert_eq!(c8_from(-0.25).as_signed_bits(), -16);
    assert_eq!(c8::min().as_signed_bits(), -128);
    assert!(c8_from(-0.5).lt(&c8_from(0.25)));
    assert!(!c8_from(0.25).lt(&c8_from(-0.5)));
    assert!(uc8_from(0.25).lt(&uc8_from(0.5)));
}

#[test]
fn cross_sign_reinterpretation_copies_bits() {
    assert_eq!(uc8::from_c8(c8::of(0xF0)).bits, 0xF0);
    assert_eq!(c8::from_uc8(uc8::of(0xF0)).bits, 0xF0);
    assert_eq!(uc128::from_c128(c128::min()).bits, c128::min().bits);
}

#[test]
fn in_place_forms_match_the_value_forms() {
    let mut a = c8_from(0.5);
    a.add_assign(c8_from(0.25));
    assert_eq!(a, c8_from(0.75));
    a.sub_assign(c8_from(0.5));
    assert_eq!(a, c8_from(0.25));
    a.mul_assign(c8_from(0.5));
    assert_eq!(a, c8_from(0.125));
}

#[test]
fn rounding_helpers_round_half_up() {
    assert_eq!(utils::u16_to_u8_round(0x0180), 2);
    assert_eq!(utils::u16_to_u8_round(0x017F), 1);
    assert_eq!(utils::u32_to_u8_round(0x01800000), 2);
    assert_eq!(utils::u64_to_u8_round(0x0180000000000000), 2);
    assert_eq!(utils::u32_to_u16_round(0x00018000), 2);
    assert_eq!(utils::u64_to_u16_round(0x0001800000000000), 2);
    assert_eq!(utils::u64_to_u32_round(0x0000000180000000), 2);
    assert_eq!(c8::u64_round(0x0180000000000000), 2);
    assert_eq!(c16::u64_round(0x0001800000000000), 2);
    assert_eq!(c32::u64_round(0x0000000180000000), 2);
    assert_eq!(c64::u64_round(7), 7);
}

#[test]
fn wide_integer_words_and_shifts() {
    let a: u128 = 0xDEADBEEF00C0FFEE;
    let v = u256::from_u128(a);
    assert_eq!(v.hi_word(), 0);
    assert_eq!(v.lo_word(), a);
    let up = v.shl(128);
    assert_eq!(up.hi_word(), a);
    assert_eq!(up.lo_word(), 0);
    // A shift that pushes no bit out is undone by the matching right shift.
    let moved = v.shl(37).shr(37);
    assert!(moved.same(&v));
    let far = v.shl(200).shr(200);
    assert_eq!(far.hi_word(), 0);
    assert_eq!(far.lo_word(), a & 0x00FFFFFFFFFFFFFF);
    // Word-boundary round trip.
    assert!(v.shl(128).shr(128).same(&v));
}

#[test]
fn wide_integer_addition_and_subtraction_saturate() {
    let one = u256::from_u128(1);
    assert!(u256::max_value().add(one).same(&u256::max_value()));
    assert!(u256::from_u128(5).sub(u256::from_u128(7)).same(&u256::zero()));
    let x = u256::from_u128(u128::MAX).add(one);
    assert_eq!(x.hi_word(), 1);
    assert_eq!(x.lo_word(), 0);
    assert!(x.sub(one).same(&u256::from_u128(u128::MAX)));
    assert!(u256::from_u128(7).below(&x));
    assert!(!x.below(&u256::from_u128(7)));
}

#[test]
fn wide_integer_multiplication_is_exact() {
    let p = u256::mul_u128s(u128::MAX, u128::MAX);
    // (2^128 - 1)^2 == (2^128 - 2) * 2^128 + 1
    assert_eq!(p.hi_word(), u128::MAX - 1);
    assert_eq!(p.lo_word(), 1);
    let q = u256::mul_u128s(0x10000000000000000, 0x10000000000000000);
    assert_eq!(q.hi_word(), 1);
    assert_eq!(q.lo_word(), 0);
    let s = u256::from_u128(2).saturating_mul(u256::from_u128(3));
    assert!(s.same(&u256::from_u128(6)));
    assert!(u256::max_value().saturating_mul(u256::max_value()).same(&u256::max_value()));
    let big = u256::raw([1, 0]);
    assert!(big.saturating_mul(big).same(&u256::max_value()));
    let fit = u256::raw([1, 0]).saturating_mul(u256::from_u128(0x100));
    assert_eq!(fit.hi_word(), 0x100);
    assert_eq!(fit.lo_word(), 0);
}
