// Bit-exact interpretation and constants checks for every width and
// signedness, driven through the IEEE-754 bit-pattern codec.

use certums::{c128, c16, c32, c64, c8, uc128, uc16, uc32, uc64, uc8};

fn c8_from(v: f64) -> c8 {
    c8::from_f64_bits(v.to_bits())
}

fn c16_from(v: f64) -> c16 {
    c16::from_f64_bits(v.to_bits())
}

fn c32_from(v: f64) -> c32 {
    c32::from_f64_bits(v.to_bits())
}

fn c64_from(v: f64) -> c64 {
    c64::from_f64_bits(v.to_bits())
}

fn c128_from(v: f64) -> c128 {
    c128::from_f64_bits(v.to_bits())
}

fn uc8_from(v: f64) -> uc8 {
    uc8::from_f64_bits(v.to_bits())
}

fn uc16_from(v: f64) -> uc16 {
    uc16::from_f64_bits(v.to_bits())
}

fn uc32_from(v: f64) -> uc32 {
    uc32::from_f64_bits(v.to_bits())
}

fn uc64_from(v: f64) -> uc64 {
    uc64::from_f64_bits(v.to_bits())
}

fn uc128_from(v: f64) -> uc128 {
    uc128::from_f64_bits(v.to_bits())
}

fn c8_to_f64(v: c8) -> f64 {
    f64::from_bits(v.to_f64_bits())
}

fn c16_to_f64(v: c16) -> f64 {
    f64::from_bits(v.to_f64_bits())
}

fn c32_to_f64(v: c32) -> f64 {
    f64::from_bits(v.to_f64_bits())
}

fn c64_to_f64(v: c64) -> f64 {
    f64::from_bits(v.to_f64_bits())
}

fn c128_to_f64(v: c128) -> f64 {
    f64::from_bits(v.to_f64_bits())
}

fn uc8_to_f64(v: uc8) -> f64 {
    f64::from_bits(v.to_f64_bits())
}

fn uc16_to_f64(v: uc16) -> f64 {
    f64::from_bits(v.to_f64_bits())
}

fn uc32_to_f64(v: uc32) -> f64 {
    f64::from_bits(v.to_f64_bits())
}

fn uc64_to_f64(v: uc64) -> f64 {
    f64::from_bits(v.to_f64_bits())
}

fn uc128_to_f64(v: uc128) -> f64 {
    f64::from_bits(v.to_f64_bits())
}

#[test]
fn unit_tests() {
    let pi32 = core::f32::consts::PI;
    let pi64 = core::f64::consts::PI;

    // Signed Certum-8: pi is far past the 8-bit range and saturates to MAX.
    assert_eq!(c8_from(pi32 as f64).bits, 0x7F);
    assert_eq!(c8_from(pi64).bits, 0x7F);
    assert_eq!(c8_to_f64(c8::of(0b01001001)) as f32, 1.140625f32);
    assert_eq!(c8_to_f64(c8::of(0b01001001)), 1.140625f64);

    // Signed Certum-16
    assert_eq!(c16_from(pi32 as f64).bits, 0b0110010010001000);
    assert_eq!(c16_from(pi64).bits, 0b0110010010001000);
    assert_eq!(c16_to_f64(c16::of(0b0110010010001000)) as f32, 3.1416015625f32);
    assert_eq!(c16_to_f64(c16::of(0b0110010010001000)), 3.1416015625f64);

    // Signed Certum-32
    assert_eq!(c32_from(pi32 as f64).bits, 0b00110010010000111111011011000000);
    assert_eq!(c32_from(pi64).bits, 0b00110010010000111111011010101001);
    assert_eq!(
        c32_to_f64(c32::of(0b00110010010000111111011011000000)) as f32,
        3.1415927410125732421875f32
    );
    assert_eq!(
        c32_to_f64(c32::of(0b00110010010000111111011010101001)),
        3.1415926553308963775634765625f64
    );
}

#[test]
fn test() {}

#[test]
fn interpretation_tests() {
    let pi32 = core::f32::consts::PI;
    let pi64 = core::f64::consts::PI;

    // Signed Certum-8 Unit Tests
    assert_eq!(c8_from(pi32 as f64), c8::max());
    assert_eq!(c8_from(pi64), c8::max());
    assert_eq!(c8_to_f64(c8::max()) as f32, 1.984375f64 as f32);
    assert_eq!(c8_to_f64(c8::max()), 1.984375f64);

    // Unsigned Certum-8 Unit Tests
    assert_eq!(uc8_from(pi32 as f64), uc8::pi());
    assert_eq!(uc8_from(pi64), uc8::pi());
    assert_eq!(uc8_to_f64(uc8::pi()) as f32, 3.140625);
    assert_eq!(uc8_to_f64(uc8::pi()), 3.140625);

    // Signed Certum-16 Unit Tests
    assert_eq!(c16_from(pi32 as f64).bits, 0x6488);
    assert_eq!(c16_from(pi64).bits, 0x6488);
    assert_eq!(c16_to_f64(c16::pi()) as f32, 3.1414794921875);
    assert_eq!(c16_to_f64(c16::pi()), 3.1414794921875);

    // Unsigned Certum-16 Unit Tests
    assert_eq!(uc16_from(pi32 as f64).bits, 0x6488);
    assert_eq!(uc16_from(pi64).bits, 0x6488);
    assert_eq!(uc16_to_f64(uc16::pi()) as f32, 3.1414794921875);
    assert_eq!(uc16_to_f64(uc16::pi()), 3.1414794921875);

    // Signed Certum-32 Unit Tests
    assert_eq!(c32_from(pi32 as f64).bits, 0x3243F6C0);
    assert_eq!(c32_from(pi64).bits, 0x3243F6A9);
    assert_eq!(c32_to_f64(c32::of(0x3243F6C0)) as f32, 3.1415927410125732421875);
    assert_eq!(c32_to_f64(c32::pi()), 3.141592651605606);

    // Unsigned Certum-32 Unit Tests
    assert_eq!(uc32_from(pi32 as f64).bits, 0x3243F6C0);
    assert_eq!(uc32_from(pi64).bits, 0x3243F6A9);
    assert_eq!(uc32_to_f64(uc32::of(0x3243F6C0)) as f32, 3.1415927410125732421875);
    assert_eq!(uc32_to_f64(uc32::pi()), 3.141592651605606);

    // Signed Certum-64 Unit Tests
    assert_eq!(c64_from(pi32 as f64).bits, 0x1921FB6000000000);
    assert_eq!(c64_from(pi64).bits, 0x1921FB54442D1800);
    assert_eq!(c64_to_f64(c64::of(0x1921FB6000000000)) as f32, 3.1415927410125732421875);
    assert_eq!(c64_to_f64(c64::pi()), 3.141592653589793);

    // Unsigned Certum-64 Unit Tests
    assert_eq!(uc64_from(pi32 as f64).bits, 0x1921FB6000000000);
    assert_eq!(uc64_from(pi64).bits, 0x1921FB54442D1800);
    assert_eq!(uc64_to_f64(uc64::of(0x1921FB6000000000)) as f32, 3.1415927410125732421875);
    assert_eq!(uc64_to_f64(uc64::pi()), 3.141592653589793);

    // Signed Certum-128 Unit Tests
    assert_eq!(c128_from(pi32 as f64).bits, 0x0C90FDB0000000000000000000000000);
    assert_eq!(c128_from(pi64).bits, 0xC90FDAA22168C000000000000000000);
    assert_eq!(
        c128_to_f64(c128::of(0x0C90FDB0000000000000000000000000)) as f32,
        3.1415927410125732421875
    );
    assert_eq!(c128_to_f64(c128::pi()), 3.141592653589793);

    // Unsigned Certum-128 Unit Tests
    assert_eq!(uc128_from(pi32 as f64).bits, 0x0C90FDB0000000000000000000000000);
    assert_eq!(uc128_from(pi64).bits, 0xC90FDAA22168C000000000000000000);
    assert_eq!(
        uc128_to_f64(uc128::of(0x0C90FDB0000000000000000000000000)) as f32,
        3.1415927410125732421875
    );
    assert_eq!(uc128_to_f64(uc128::pi()), 3.141592653589793);
}

#[test]
fn constants_tests() {
    assert_eq!(c8_to_f64(c8::min()), -2.0f64);
    assert_eq!(c8_to_f64(c8::max()), 1.984375f64);
    assert_eq!(uc8_to_f64(uc8::min()), 0f64);
    assert_eq!(uc8_to_f64(uc8::max()), 3.984375f64);
    assert_eq!(c16_to_f64(c16::min()), -4.0f64);
    assert_eq!(c16_to_f64(c16::max()), 3.9998779296875f64);
    assert_eq!(uc16_to_f64(uc16::min()), 0f64);
    assert_eq!(uc16_to_f64(uc16::max()), 7.9998779296875f64);
    assert_eq!(c32_to_f64(c32::min()), -8.0f64);
    assert_eq!(c32_to_f64(c32::max()), 7.99999999627471f64);
    assert_eq!(uc32_to_f64(uc32::min()), 0f64);
    assert_eq!(uc32_to_f64(uc32::max()), 15.99999999627471f64);
    assert_eq!(c64_to_f64(c64::min()), -16f64);
    assert_eq!(c64_to_f64(c64::max()), 16f64);
    assert_eq!(uc64_to_f64(uc64::min()), 0f64);
    assert_eq!(uc64_to_f64(uc64::max()), 32f64);
    assert_eq!(c128_to_f64(c128::min()), -16f64);
    assert_eq!(c128_to_f64(c128::max()), 16f64);
    assert_eq!(uc128_to_f64(uc128::min()), 0f64);
    assert_eq!(uc128_to_f64(uc128::max()), 32f64);
    assert_eq!(uc8_to_f64(uc8::pi()), 3.140625);
    assert_eq!(c16_to_f64(c16::pi()), 3.1414794921875);
    assert_eq!(uc16_to_f64(uc16::pi()), 3.1414794921875);
    assert_eq!(c32_to_f64(c32::pi()), 3.141592651605606);
    assert_eq!(uc32_to_f64(uc32::pi()), 3.141592651605606);
    assert_eq!(c64_to_f64(c64::pi()), 3.141592653589793);
    assert_eq!(uc64_to_f64(uc64::pi()), 3.141592653589793);
    assert_eq!(c128_to_f64(c128::pi()), 3.141592653589793);
    assert_eq!(uc128_to_f64(uc128::pi()), 3.141592653589793);
    assert_eq!(uc8_to_f64(uc8::e()), 2.71875);
    assert_eq!(c16_to_f64(c16::e()), 2.71826171875);
    assert_eq!(uc16_to_f64(uc16::e()), 2.71826171875);
    assert_eq!(c32_to_f64(c32::e()), 2.718281827867031);
    assert_eq!(uc32_to_f64(uc32::e()), 2.718281827867031);
    assert_eq!(c64_to_f64(c64::e()), 2.718281828459045);
    assert_eq!(uc64_to_f64(uc64::e()), 2.718281828459045);
    assert_eq!(c128_to_f64(c128::e()), 2.718281828459045);
    assert_eq!(uc128_to_f64(uc128::e()), 2.718281828459045);
}
