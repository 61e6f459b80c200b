//! A reader for `.cube` colour lookup tables.
//!
//! A `.cube` file is line-oriented text: comments, a few directives and rows of
//! three numbers. [`Lut::parse`] turns its lines into a [`Lut`]: one primary
//! [`Cube`], an optional shaper cube and the metadata around them.
//!
//! Samples are kept as the bit patterns of IEEE-754 `binary32` values. Decimal
//! text is turned into such a pattern by a decoder that the caller hands in, so
//! every rule of the format is stated and proved here over plain integers.

pub mod collector;
pub mod cube;
pub mod decode;
pub mod error;
pub mod laws;
pub mod lut;
pub mod parser;
pub mod text;

pub use collector::Collector;
pub use cube::{parse_input_range, Cube, InputRange};
pub use error::Error;
pub use lut::Lut;
pub use parser::{Parser, Step};
