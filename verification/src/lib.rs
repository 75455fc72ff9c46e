//! Colors with four 8-bit channels, and the arithmetic under them: tolerant
//! comparison of floating-point values and linear mapping between ranges.

pub mod color;
pub mod math;
