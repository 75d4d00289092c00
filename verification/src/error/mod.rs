//! Errors produced by the library's parsers.

pub mod digital_touch;
pub mod handwriting;
pub mod streamtyped;
pub mod typedstream;
