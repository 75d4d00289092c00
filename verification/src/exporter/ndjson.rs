//! The newline-delimited JSON export: the values that a message's JSON object is built from.
//! Each type here stands for one JSON object of the export, with its keys as fields; writing
//! them out is left to the caller.

use vstd::prelude::*;

use crate::exporter::txt::{begins_with, text_between, FITNESS_RECEIVER, YOU};
use crate::exporter::txt::{get_text_between, text_begins_with};
use crate::message_types::edited::{EditStatus, EditedMessage};
use crate::message_types::text_effects::TextEffect;
use crate::tables::messages::models::TextAttributes;

verus! {

/// One version of an edited message part: `{timestamp, text}`. The first version's timestamp
/// is absolute, later ones are relative to the version before; it is `null` when unknown.
pub struct EditedVersionJson {
    pub timestamp: Option<i64>,
    pub text: String,
}

/// An unsent message part: `{who, diff, message}`; `diff` is left out when unknown.
pub struct UnsentJson {
    pub who: String,
    pub diff: Option<String>,
    pub message: &'static str,
}

/// An edited message part: `{kind: "edited", edited: [...]}` or `{kind: "edited", unsent: {...}}`.
pub enum EditedJson {
    Edited(Vec<EditedVersionJson>),
    Unsent(UnsentJson),
}

/// The message of an unsent part when how long after sending it was unsent is known.
pub const UNSENT_AFTER: &'static str = "{{ who }} unsent this message part {{ diff }} after sending!";

/// The message of an unsent part when that is not known.
pub const UNSENT: &'static str = "{{ who }} unsent this message part!";

/// Whether `json` is the JSON of part `part` of an edited message: its versions, each with
/// `timestamps[k]` and the text of version `k`, for an edited part; who unsent it and how long
/// after sending (when known) for an unsent part; nothing for a part that is neither or that
/// the message does not have.
pub open spec fn edited_json_is(
    json: Option<EditedJson>,
    edited: EditedMessage,
    part: usize,
    timestamps: Seq<Option<i64>>,
    who: Seq<char>,
    unsent_diff: Option<Seq<char>>,
) -> bool {
    &&& part >= edited.parts@.len() ==> json is None
    &&& part < edited.parts@.len() ==> match edited.parts@[part as int].status {
        EditStatus::Original => json is None,
        EditStatus::Edited => (json matches Some(EditedJson::Edited(versions))
            && versions@.len() == timestamps.len() && forall|k: int|
            0 <= k < versions@.len() ==> (#[trigger] versions@[k]).timestamp == timestamps[k]
                && versions@[k].text@ == edited.parts@[part as int].edit_history@[k].text@),
        EditStatus::Unsent => (json matches Some(EditedJson::Unsent(u)) && u.who@ == who
            && match unsent_diff {
            Some(d) => (u.diff matches Some(ud) && ud@ == d && u.message == UNSENT_AFTER),
            None => u.diff is None && u.message == UNSENT,
        }),
    }
}

/// Formats a part of an edited message: its versions, each with `timestamps[k]` (the absolute
/// time of the first, then the time since the version before), for an edited part; who unsent
/// it and how long after sending (when known) for an unsent part; nothing for a part that is
/// neither or that the message does not have.
pub fn format_edited_json(
    edited: &EditedMessage,
    part: usize,
    timestamps: &[Option<i64>],
    who: &str,
    unsent_diff: Option<&str>,
) -> (json: Option<EditedJson>)
    requires
        part < edited.parts@.len() ==> timestamps@.len()
            == edited.parts@[part as int].edit_history@.len(),
    ensures
        edited_json_is(json, *edited, part, timestamps@, who@, match unsent_diff {
            Some(d) => Some(d@),
            None => None,
        }),
{
    if part >= edited.parts.len() {
        return None;
    }
    let edited_part = &edited.parts[part];
    match edited_part.status {
        EditStatus::Edited => {
            let history = &edited_part.edit_history;
            let mut versions: Vec<EditedVersionJson> = Vec::new();
            let mut k: usize = 0;
            while k < history.len()
                invariant
                    k <= history@.len(),
                    timestamps@.len() == history@.len(),
                    versions@.len() == k,
                    forall|j: int|
                        0 <= j < k ==> (#[trigger] versions@[j]).timestamp == timestamps@[j]
                            && versions@[j].text@ == history@[j].text@,
                decreases history@.len() - k,
            {
                versions.push(
                    EditedVersionJson { timestamp: timestamps[k], text: history[k].text.clone() },
                );
                k += 1;
            }
            Some(EditedJson::Edited(versions))
        },
        EditStatus::Unsent => {
            let unsent = match unsent_diff {
                Some(diff) => UnsentJson {
                    who: who.to_owned(),
                    diff: Some(diff.to_owned()),
                    message: UNSENT_AFTER,
                },
                None => UnsentJson { who: who.to_owned(), diff: None, message: UNSENT },
            };
            Some(EditedJson::Unsent(unsent))
        },
        EditStatus::Original => None,
    }
}

/// One element of the body of a text bubble: a piece of text with its effect
/// (`{kind: "attributed", text: ...}`), or plain text.
pub enum TextPieceJson<'a> {
    Attributed(&'a str, &'a TextEffect<'a>),
    Plain(String),
}

/// The pieces of text that the first `n` attributes cover, with their effects: one for each
/// attribute whose range is whole characters.
pub open spec fn body_pieces<'a>(text: Seq<char>, attrs: Seq<TextAttributes<'a>>, n: int) -> Seq<
    (Seq<char>, TextEffect<'a>),
>
    decreases n,
{
    if n <= 0 || n > attrs.len() {
        seq![]
    } else {
        let before = body_pieces(text, attrs, n - 1);
        match text_between(text, attrs[n - 1].start, attrs[n - 1].end) {
            Some(piece) => before.push((piece, attrs[n - 1].effect)),
            None => before,
        }
    }
}

/// Whether a text bubble's body element is the given plain text.
pub open spec fn plain_is<'a>(element: TextPieceJson<'a>, text: Seq<char>) -> bool {
    element matches TextPieceJson::Plain(p) && p@ == text
}

/// Whether a text bubble's body element is the given piece with its effect.
pub open spec fn is_piece<'a>(element: TextPieceJson<'a>, piece: (Seq<char>, TextEffect<'a>)) -> bool {
    element matches TextPieceJson::Attributed(text, effect) && text@ == piece.0 && *effect
        == piece.1
}

/// Whether `body` is the body of a text bubble of text `text` with attributes `attrs`: a
/// piece for each attribute whose range is whole characters, in order; the whole text when
/// there is none, or [`YOU`] when that text begins with the Fitness receiver placeholder.
pub open spec fn text_body_json_is<'a>(
    body: Seq<TextPieceJson<'a>>,
    text: Seq<char>,
    attrs: Seq<TextAttributes<'a>>,
) -> bool {
    let pieces = body_pieces(text, attrs, attrs.len() as int);
    &&& pieces.len() == 0 ==> (body.len() == 1 && plain_is(body[0], if begins_with(text, FITNESS_RECEIVER@) {
        YOU@
    } else {
        text
    }))
    &&& pieces.len() > 0 ==> body.len() == pieces.len() && forall|k: int|
        0 <= k < body.len() ==> is_piece(#[trigger] body[k], pieces[k])
}

/// The body of a text bubble: a piece for each attribute whose range is whole characters, in
/// order; the whole text when there is none, or [`YOU`] when that text begins with the
/// Fitness receiver placeholder.
pub fn format_text_body_json<'a>(text: &'a str, attrs: &'a [TextAttributes<'a>]) -> (body: Vec<
    TextPieceJson<'a>,
>)
    ensures
        body_pieces(text@, attrs@, attrs@.len() as int).len() == 0 ==> (body@.len() == 1
            && plain_is(body@[0], if begins_with(text@, FITNESS_RECEIVER@) {
            YOU@
        } else {
            text@
        })),
        body_pieces(text@, attrs@, attrs@.len() as int).len() > 0 ==> body@.len() == body_pieces(
            text@,
            attrs@,
            attrs@.len() as int,
        ).len() && forall|k: int|
            0 <= k < body@.len() ==> is_piece(
                #[trigger] body@[k],
                body_pieces(text@, attrs@, attrs@.len() as int)[k],
            ),
        text_body_json_is(body@, text@, attrs@),
{
    let mut body: Vec<TextPieceJson<'a>> = Vec::new();
    let mut i: usize = 0;
    while i < attrs.len()
        invariant
            i <= attrs@.len(),
            body@.len() == body_pieces(text@, attrs@, i as int).len(),
            forall|k: int|
                0 <= k < body@.len() ==> is_piece(
                    #[trigger] body@[k],
                    body_pieces(text@, attrs@, i as int)[k],
                ),
        decreases attrs@.len() - i,
    {
        let ghost before = body@;
        if let Some(piece) = get_text_between(text, attrs[i].start, attrs[i].end) {
            body.push(TextPieceJson::Attributed(piece, &attrs[i].effect));
            proof {
                assert forall|k: int| 0 <= k < body@.len() implies is_piece(
                    #[trigger] body@[k],
                    body_pieces(text@, attrs@, i + 1)[k],
                ) by {
                    if k < before.len() {
                        assert(body@[k] == before[k]);
                    }
                }
            }
        }
        i += 1;
    }
    if body.len() == 0 {
        proof {
            reveal_strlit("$(kIMTranscriptPluginBreadcrumbTextReceiverIdentifier)");
        }
        let whole = if text_begins_with(text, FITNESS_RECEIVER) {
            YOU.to_owned()
        } else {
            text.to_owned()
        };
        body.push(TextPieceJson::Plain(whole));
    }
    body
}

/// The content of one bubble of a message's JSON object: nothing; the body of a text bubble
/// (`body`); an edited text bubble (`body` holding its edits, with `edited: true`); a
/// retracted bubble (`retracted`); the sticker, the copied attachment or the file name of an
/// attachment that could not be copied (`sticker`, `attachment`, `attachment_error`), each
/// by its index among the message's attachments; a missing attachment
/// (`attachment_missing: true`); the message's app bubble (`app`) or the reason it could not
/// be formatted (`app_error`).
pub enum PartContentJson<'a> {
    Empty,
    Body(Vec<TextPieceJson<'a>>),
    Edited(EditedJson),
    Retracted(EditedJson),
    Sticker(usize),
    Attachment(usize),
    AttachmentError(usize),
    AttachmentMissing,
    App,
    AppError,
}

/// One bubble of a message's JSON object: its content, the message's expressive, its
/// reactions (left out when there are none) and its replies (left out when the message has
/// none for this bubble).
pub struct PartJson<'a, T> {
    pub content: PartContentJson<'a>,
    pub expressive: Option<T>,
    pub reactions: Option<Vec<T>>,
    pub replies: Option<Vec<T>>,
}

/// One bubble of a message's JSON object
pub fn part_json<'a, T>(
    content: PartContentJson<'a>,
    expressive: Option<T>,
    reactions: Vec<T>,
    replies: Option<Vec<T>>,
) -> (part: PartJson<'a, T>)
    ensures
        part.content == content,
        part.expressive == expressive,
        reactions@.len() == 0 ==> part.reactions is None,
        reactions@.len() > 0 ==> (part.reactions matches Some(r) && r@ == reactions@),
        part.replies == replies,
{
    let reactions = if reactions.len() == 0 {
        None
    } else {
        Some(reactions)
    };
    PartJson { content, expressive, reactions, replies }
}

/// When a message was sent (seconds since the Unix epoch), and when it was read and by whom:
/// `{timestamp, read_timestamp: {read_by_you, timestamp}}`, the second left out when unknown.
pub struct TimeJson {
    pub timestamp: i64,
    pub read_by_you: Option<bool>,
    pub read_timestamp: Option<i64>,
}

/// When a message was sent and read: a message that is not from the owner is read by them
pub fn time_json(timestamp: i64, is_from_me: bool, read_after: Option<i64>) -> (time: TimeJson)
    ensures
        time.timestamp == timestamp,
        time.read_timestamp == read_after,
        time.read_by_you == match read_after {
            Some(_) => Some(!is_from_me),
            None => None,
        },
{
    match read_after {
        Some(read) => TimeJson {
            timestamp,
            read_by_you: Some(!is_from_me),
            read_timestamp: Some(read),
        },
        None => TimeJson { timestamp, read_by_you: None, read_timestamp: None },
    }
}

/// A message's JSON object: `{service, timestamp, sender, deleted, subject, shareplay,
/// location: {started_sharing, stopped_sharing}, body: [...], reply}`; the service and the
/// subject are left out when there are none, and `reply` when the message replies to no other.
pub struct MessageJson<'a, T> {
    pub service: Option<String>,
    pub timestamp: TimeJson,
    pub sender: String,
    pub deleted: bool,
    pub subject: Option<String>,
    pub shareplay: bool,
    pub started_sharing: bool,
    pub stopped_sharing: bool,
    pub body: Vec<PartJson<'a, T>>,
    pub reply: Option<bool>,
}

/// Builds a message's JSON object from its parts
pub fn format_message_json<'a, T>(
    service: Option<String>,
    timestamp: TimeJson,
    sender: String,
    deleted: bool,
    subject: Option<String>,
    shareplay: bool,
    started_sharing: bool,
    stopped_sharing: bool,
    body: Vec<PartJson<'a, T>>,
    is_reply: bool,
) -> (message: MessageJson<'a, T>)
    ensures
        message.service == service,
        message.timestamp == timestamp,
        message.sender == sender,
        message.deleted == deleted,
        message.subject == subject,
        message.shareplay == shareplay,
        message.started_sharing == started_sharing,
        message.stopped_sharing == stopped_sharing,
        message.body == body,
        message.reply == if is_reply {
            Some(true)
        } else {
            None::<bool>
        },
{
    MessageJson {
        service,
        timestamp,
        sender,
        deleted,
        subject,
        shareplay,
        started_sharing,
        stopped_sharing,
        body,
        reply: if is_reply {
            Some(true)
        } else {
            None
        },
    }
}

} // verus!
