//! Verified parsing and rendering logic for iMessage data: the `typedstream`
//! deserializer, message body segmentation, Digital Touch decoding and the
//! SVG/ASCII canvases that draw them.

pub mod error;
pub mod exporter;
pub mod message_types;
pub mod tables;
pub mod util;
