//! Data read from the tables of the iMessage database.

pub mod messages;
