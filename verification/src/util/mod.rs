//! Parsers and helpers shared by the message types.

pub mod ascii_canvas;
pub mod attributed_string;
pub mod platform;
pub mod svg_canvas;
pub mod text;
pub mod typedstream;
