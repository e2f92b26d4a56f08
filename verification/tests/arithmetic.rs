// Saturating arithmetic and cross-width conversion checks.

use certums::{c128, c16, c32, c64, c8};

fn c8_from(v: f64) -> c8 {
    c8::from_f64_bits(v.to_bits())
}

fn c16_from(v: f64) -> c16 {
    c16::from_f64_bits(v.to_bits())
}

fn c32_from(v: f64) -> c32 {
    c32::from_f64_bits(v.to_bits())
}

fn c64_from(v: f64) -> c64 {
    c64::from_f64_bits(v.to_bits())
}

fn c128_from(v: f64) -> c128 {
    c128::from_f64_bits(v.to_bits())
}

#[test]
fn conversion_tests() {
    // Check that the exact bound mapping holds across every width pair.
    let min_low = c8::min();
    let min_high = c128::max();
    let max_low = c8::min();
    let max_high = c128::max();
    assert_eq!(min_low, c8::min());
    assert_eq!(c16::from_c8(min_low), c16::min());
    assert_eq!(c32::from_c8(min_low), c32::min());
    assert_eq!(c64::from_c8(min_low), c64::min());
    assert_eq!(c128::from_c8(min_low), c128::min());
    assert_eq!(c8::from_c128(min_high), c8::max());
    assert_eq!(c16::from_c128(min_high), c16::max());
    assert_eq!(c32::from_c128(min_high), c32::max());
    assert_eq!(c64::from_c128(min_high), c64::max());
    assert_eq!(min_high, c128::max());
    assert_eq!(max_low, c8::min());
    assert_eq!(c16::from_c8(max_low), c16::min());
    assert_eq!(c32::from_c8(max_low), c32::min());
    assert_eq!(c64::from_c8(max_low), c64::min());
    assert_eq!(c128::from_c8(max_low), c128::min());
    assert_eq!(c8::from_c128(max_high), c8::max());
    assert_eq!(c16::from_c128(max_high), c16::max());
    assert_eq!(c32::from_c128(max_high), c32::max());
    assert_eq!(c64::from_c128(max_high), c64::max());
    assert_eq!(max_high, c128::max());
}

#[test]
fn addition_tests() {
    // upper + -lower
    // upper + lower
    // lower + -upper
    // lower + upper
    assert_eq!(c8_from(0.5).add(c8_from(-0.25)), c8_from(0.25));
    assert_eq!(c8_from(0.5).add(c8_from(0.25)), c8_from(0.75));
    assert_eq!(c8_from(0.25).add(c8_from(-0.5)), c8_from(-0.25));
    assert_eq!(c8_from(0.25).add(c8_from(0.5)), c8_from(0.75));
    assert_eq!(c16_from(0.5).add(c16_from(-0.25)), c16_from(0.25));
    assert_eq!(c16_from(0.5).add(c16_from(0.25)), c16_from(0.75));
    assert_eq!(c16_from(0.25).add(c16_from(-0.5)), c16_from(-0.25));
    assert_eq!(c16_from(0.25).add(c16_from(0.5)), c16_from(0.75));
    assert_eq!(c32_from(0.5).add(c32_from(-0.25)), c32_from(0.25));
    assert_eq!(c32_from(0.5).add(c32_from(0.25)), c32_from(0.75));
    assert_eq!(c32_from(0.25).add(c32_from(-0.5)), c32_from(-0.25));
    assert_eq!(c32_from(0.25).add(c32_from(0.5)), c32_from(0.75));
    assert_eq!(c64_from(0.5).add(c64_from(-0.25)), c64_from(0.25));
    assert_eq!(c64_from(0.5).add(c64_from(0.25)), c64_from(0.75));
    assert_eq!(c64_from(0.25).add(c64_from(-0.5)), c64_from(-0.25));
    assert_eq!(c64_from(0.25).add(c64_from(0.5)), c64_from(0.75));
    assert_eq!(c128_from(0.5).add(c128_from(-0.25)).bits, c128_from(0.25).bits);
    assert_eq!(c128_from(0.5).add(c128_from(0.25)), c128_from(0.75));
    assert_eq!(c128_from(0.25).add(c128_from(-0.5)), c128_from(-0.25));
    assert_eq!(c128_from(0.25).add(c128_from(0.5)), c128_from(0.75));
}

#[test]
fn subtraction_tests() {
    // upper - -lower
    // upper - lower
    // lower - -upper
    // lower - upper
    assert_eq!(c8_from(0.5).sub(c8_from(-0.25)), c8_from(0.75));
    assert_eq!(c8_from(0.5).sub(c8_from(0.25)), c8_from(0.25));
    assert_eq!(c8_from(0.25).sub(c8_from(-0.5)), c8_from(0.75));
    assert_eq!(c8_from(0.25).sub(c8_from(0.5)), c8_from(-0.25));
    assert_eq!(c16_from(0.5).sub(c16_from(-0.25)), c16_from(0.75));
    assert_eq!(c16_from(0.5).sub(c16_from(0.25)), c16_from(0.25));
    assert_eq!(c16_from(0.25).sub(c16_from(-0.5)), c16_from(0.75));
    assert_eq!(c16_from(0.25).sub(c16_from(0.5)), c16_from(-0.25));
    assert_eq!(c32_from(0.5).sub(c32_from(-0.25)), c32_from(0.75));
    assert_eq!(c32_from(0.5).sub(c32_from(0.25)), c32_from(0.25));
    assert_eq!(c32_from(0.25).sub(c32_from(-0.5)), c32_from(0.75));
    assert_eq!(c32_from(0.25).sub(c32_from(0.5)), c32_from(-0.25));
    assert_eq!(c64_from(0.5).sub(c64_from(-0.25)), c64_from(0.75));
    assert_eq!(c64_from(0.5).sub(c64_from(0.25)), c64_from(0.25));
    assert_eq!(c64_from(0.25).sub(c64_from(-0.5)), c64_from(0.75));
    assert_eq!(c64_from(0.25).sub(c64_from(0.5)), c64_from(-0.25));
    assert_eq!(c128_from(0.5).sub(c128_from(-0.25)), c128_from(0.75));
    assert_eq!(c128_from(0.5).sub(c128_from(0.25)), c128_from(0.25));
    assert_eq!(c128_from(0.25).sub(c128_from(-0.5)), c128_from(0.75));
    assert_eq!(c128_from(0.25).sub(c128_from(0.5)), c128_from(-0.25));
}
