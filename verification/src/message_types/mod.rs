//! Types of message content and the data that describes them.

pub mod digital_touch;
pub mod edited;
pub mod text_effects;
