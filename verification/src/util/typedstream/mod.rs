//! Deserializer for `typedstream`, the binary archive format that NeXTSTEP's
//! `NXTypedStream` introduced and that Apple's `NSArchiver` still writes.

pub mod models;
pub mod parser;
