//! Edited and unsent message parts.

use vstd::prelude::*;

use crate::util::typedstream::models::Archivable;

verus! {

/// The state of one part of a message that was edited or unsent
#[derive(Debug, PartialEq, Eq)]
pub enum EditStatus {
    /// The part was edited
    Edited,
    /// The part was unsent
    Unsent,
    /// The part was neither edited nor unsent
    Original,
}

/// One version of an edited message part
#[derive(Debug, PartialEq)]
pub struct EditedEvent {
    /// When the version was written
    pub date: i64,
    /// The text of the version
    pub text: String,
    /// The `typedstream` data of the version
    pub components: Option<Vec<Archivable>>,
    /// The identifier of the version
    pub guid: Option<String>,
}

/// The history of one part of a message
#[derive(Debug, PartialEq)]
pub struct EditedMessagePart {
    /// What happened to the part
    pub status: EditStatus,
    /// The versions of the part, oldest first
    pub edit_history: Vec<EditedEvent>,
}

/// The edit history of every part of a message
#[derive(Debug, PartialEq)]
pub struct EditedMessage {
    /// The parts of the message, in order
    pub parts: Vec<EditedMessagePart>,
}

/// What happened to each of a sequence of message parts.
pub open spec fn edit_statuses(parts: Seq<EditedMessagePart>) -> Seq<EditStatus> {
    parts.map_values(|p: EditedMessagePart| p.status)
}

} // verus!
