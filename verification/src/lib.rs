//! Fixed-width, fixed-point numeric types ("certums").
//!
//! A certum packs an optional sign bit, a few integer bits and many fraction
//! bits into a single unsigned word of 8, 16, 32, 64 or 128 bits.  The crate
//! provides, for each width and signedness:
//!
//! * bit-exact, rounding-correct conversion from and to IEEE-754 double
//!   precision bit patterns,
//! * value-preserving conversion between certums of different widths with
//!   exact saturation at the range boundaries,
//! * saturating negation, addition, subtraction and multiplication,
//!
//! together with the 256-bit unsigned integer `u256` that backs the 128-bit
//! multiplication.  Everything is pure bit- and integer arithmetic; nothing
//! here touches the heap or performs I/O.

pub mod model;
pub mod arith;
pub mod codec;
pub mod quire;
pub mod certum;
pub mod utils;
pub mod laws;

pub use quire::quire256::u256;

pub use certum::certum8::c8;
pub use certum::certum16::c16;
pub use certum::certum32::c32;
pub use certum::certum64::c64;
pub use certum::certum128::c128;

pub use certum::u_certum8::uc8;
pub use certum::u_certum16::uc16;
pub use certum::u_certum32::uc32;
pub use certum::u_certum64::uc64;
pub use certum::u_certum128::uc128;

