//! Choices of the exporter that do not depend on where it runs: how attachments are handled,
//! which command line options go together, which formatter an app message goes to, what to
//! do with each message row streamed from the database, and the text and JSON renderings of
//! a message.

pub mod app_route;
pub mod attachment_manager;
pub mod export_loop;
pub mod ndjson;
pub mod options;
pub mod parts;
pub mod txt;
