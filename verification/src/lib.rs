//! One-dimensional color transfer lookup tables.
//!
//! A table holds exactly 256 entries; entry `i` carries the value of a scalar
//! transfer function at the domain sample `i / 255`, replicated across the
//! red, green and blue channels. The table is serialized as a plain-text LUT
//! file: a `TITLE` line, a `LUT_1D_SIZE 256` line, then one line of three
//! space-separated channel tokens per entry.
//!
//! The curve evaluations themselves are double-precision arithmetic, which the
//! verifier does not take; a caller evaluates the curve and hands each sampled
//! value in as the decimal token it prints as. What this crate states and
//! proves is the table structure, the exact text of the serialized file, and
//! the laws of the range-remap curves over exact rationals.

pub mod color;
pub mod lut;
pub mod remap;
