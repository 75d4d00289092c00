//! Messages and the parts their bodies are made of.

use vstd::prelude::*;

use crate::message_types::edited::{edit_statuses, EditStatus, EditedMessage};
use crate::util::typedstream::models::{archivables_view, Archivable, ArchivableView};

pub mod body;
pub mod models;

verus! {

/// The columns of a row of the `message` table that describe the message body
#[derive(Debug, PartialEq)]
pub struct Message {
    /// The plain text of the message
    pub text: Option<String>,
    /// The deserialized `attributedBody` `typedstream` of the message
    pub components: Option<Vec<Archivable>>,
    /// The edit history of the message's parts
    pub edited_parts: Option<EditedMessage>,
}

/// The value of a [`Message`]'s body: its text, its `typedstream` components and what
/// happened to each part.
pub struct MessageView {
    pub text: Option<Seq<char>>,
    pub components: Option<Seq<ArchivableView>>,
    pub edited_statuses: Option<Seq<EditStatus>>,
}

impl View for Message {
    type V = MessageView;

    open spec fn view(&self) -> MessageView {
        MessageView {
            text: match self.text {
                Some(t) => Some(t@),
                None => None,
            },
            components: match self.components {
                Some(c) => Some(archivables_view(c@)),
                None => None,
            },
            edited_statuses: match self.edited_parts {
                Some(e) => Some(edit_statuses(e.parts@)),
                None => None,
            },
        }
    }
}

} // verus!
