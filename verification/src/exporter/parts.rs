//! What each bubble of a message shows, in the TXT and the NDJSON exports: the line or the
//! JSON content of each part of the message's body, chosen by the part's kind, the message's
//! text and edits, and what came of handling its attachments and its app payload. The
//! caller gets those outcomes from the database and the disk, and hands them in as values.

use vstd::prelude::*;

use crate::exporter::ndjson::{edited_json_is, format_edited_json, format_text_body_json};
use crate::exporter::ndjson::{text_body_json_is, PartContentJson};
use crate::exporter::txt::{app_error_line, format_edited_part, format_text_bubble};
use crate::exporter::txt::{ranges_of, spec_format_edited, text_bubble_line, PartText};
use crate::exporter::txt::ATTACHMENT_MISSING;
use crate::message_types::edited::{EditStatus, EditedMessage};
use crate::tables::messages::models::BubbleComponent;

verus! {

/// What came of handing one of a message's attachments to the exporter: the rendering of a
/// sticker; the rendering of an attachment that was copied to (or found at) the place the
/// export points to; or the file name of an attachment that could not be.
pub enum AttachmentOutcome<R> {
    Sticker(R),
    Copied(R),
    Failed(String),
}

/// The index, among the message's attachments, of the one that part `k` of the body would
/// use: it starts at the first, and moves to the next only after an attachment part whose
/// attachment was copied. A sticker or an attachment that failed is used again by the next
/// attachment part.
pub open spec fn attachment_index_before<'a, R>(
    body: Seq<BubbleComponent<'a>>,
    outcomes: Seq<AttachmentOutcome<R>>,
    k: int,
) -> nat
    decreases k,
{
    if k <= 0 {
        0
    } else {
        let a = attachment_index_before(body, outcomes, k - 1);
        if body[k - 1] is Attachment && a < outcomes.len() && outcomes[a as int] is Copied {
            a + 1
        } else {
            a
        }
    }
}

/// The attachment index never passes the end of the attachments, and moves by one part at a
/// time: it grows by at most one over each part, and only over an attachment part.
pub proof fn lemma_attachment_index_bounded<'a, R>(
    body: Seq<BubbleComponent<'a>>,
    outcomes: Seq<AttachmentOutcome<R>>,
    k: int,
)
    requires
        0 <= k,
    ensures
        attachment_index_before(body, outcomes, k) <= outcomes.len(),
        attachment_index_before(body, outcomes, k + 1) <= attachment_index_before(body, outcomes, k)
            + 1,
        !(body[k] is Attachment) ==> attachment_index_before(body, outcomes, k + 1)
            == attachment_index_before(body, outcomes, k),
    decreases k,
{
    if k > 0 {
        lemma_attachment_index_bounded(body, outcomes, k - 1);
    }
}

/// Whether part `k` of the message was edited: the message has edits, and the part's status
/// among them is `Edited`.
pub open spec fn part_is_edited(edited: Option<&EditedMessage>, k: int) -> bool {
    match edited {
        Some(e) => 0 <= k < e.parts@.len() && e.parts@[k].status is Edited,
        None => false,
    }
}

fn is_part_edited(edited: Option<&EditedMessage>, k: usize) -> (b: bool)
    ensures
        b == part_is_edited(edited, k as int),
{
    match edited {
        Some(e) => if k < e.parts.len() {
            match e.parts[k].status {
                EditStatus::Edited => true,
                _ => false,
            }
        } else {
            false
        },
        None => false,
    }
}

/// A text, if there is one, as characters.
pub open spec fn opt_view(o: Option<String>) -> Option<Seq<char>> {
    match o {
        Some(s) => Some(s@),
        None => None,
    }
}

/// A text slice, if there is one, as characters.
pub open spec fn opt_str_view(o: Option<&str>) -> Option<Seq<char>> {
    match o {
        Some(s) => Some(s@),
        None => None,
    }
}

fn copy_strings(v: &Vec<String>) -> (c: Vec<String>)
    ensures
        c@ == v@,
{
    let mut c: Vec<String> = Vec::new();
    let mut i: usize = 0;
    while i < v.len()
        invariant
            i <= v@.len(),
            c@ == v@.take(i as int),
        decreases v@.len() - i,
    {
        c.push(v[i].clone());
        i += 1;
        assert(c@ =~= v@.take(i as int));
    }
    assert(v@.take(i as int) =~= v@);
    c
}

/// The dates that the text of an edited part needs: the date of its first version, how much
/// later each later version was written (when known), and how long after sending it was
/// unsent (when known).
pub struct EditTimes {
    pub first_stamp: String,
    pub edit_diffs: Vec<Option<String>>,
    pub unsent_diff: Option<String>,
}

/// Whether there are dates for each part of the message's edits, one per version.
pub open spec fn edit_times_fit(edited: Option<&EditedMessage>, times: Seq<EditTimes>) -> bool {
    match edited {
        Some(e) => times.len() == e.parts@.len() && forall|k: int|
            0 <= k < times.len() ==> (#[trigger] times[k]).edit_diffs@.len()
                == e.parts@[k].edit_history@.len(),
        None => true,
    }
}

/// The text of part `k` of an edited message, when the message has edits.
pub open spec fn txt_edited_text(
    edited: Option<&EditedMessage>,
    k: int,
    times: Seq<EditTimes>,
    who: Seq<char>,
    indent: Seq<char>,
) -> Option<Seq<char>> {
    match edited {
        None => None,
        Some(e) => if 0 <= k < times.len() {
            spec_format_edited(
                *e,
                k as usize,
                times[k].first_stamp@,
                times[k].edit_diffs@,
                who,
                opt_view(times[k].unsent_diff),
                indent,
            )
        } else {
            None
        },
    }
}

/// The line that part `k` of a message shows in the TXT export:
/// - a text part: nothing without text; the part's edits when it was edited; its text bubble
///   otherwise;
/// - an attachment part: the rendering of the attachment it uses (see
///   [`attachment_index_before`]), or the file name of one that could not be copied, or
///   [`ATTACHMENT_MISSING`] past the last attachment;
/// - an app part: the app bubble, or why it could not be formatted;
/// - a retracted part: its edits, when the message has them.
pub open spec fn txt_part_line<'a>(
    body: Seq<BubbleComponent<'a>>,
    k: int,
    text: Option<Seq<char>>,
    edited: Option<&EditedMessage>,
    times: Seq<EditTimes>,
    who: Seq<char>,
    outcomes: Seq<AttachmentOutcome<String>>,
    app: Result<String, String>,
    indent: Seq<char>,
) -> Option<Seq<char>> {
    match body[k] {
        BubbleComponent::Text(attrs) => match text {
            None => None,
            Some(t) => if part_is_edited(edited, k) {
                txt_edited_text(edited, k, times, who, indent)
            } else {
                Some(text_bubble_line(t, ranges_of(attrs@)))
            },
        },
        BubbleComponent::Attachment(_) => {
            let a = attachment_index_before(body, outcomes, k);
            if a < outcomes.len() {
                Some(
                    match outcomes[a as int] {
                        AttachmentOutcome::Sticker(s) => s@,
                        AttachmentOutcome::Copied(path) => path@,
                        AttachmentOutcome::Failed(name) => name@,
                    },
                )
            } else {
                Some(ATTACHMENT_MISSING@)
            }
        },
        BubbleComponent::App => Some(
            match app {
                Ok(bubble) => bubble@,
                Err(why) => "Unable to format app message: "@ + why@,
            },
        ),
        BubbleComponent::Retracted => txt_edited_text(edited, k, times, who, indent),
    }
}

fn txt_edited(
    edited: Option<&EditedMessage>,
    k: usize,
    times: &[EditTimes],
    who: &str,
    indent: &str,
) -> (text: Option<String>)
    requires
        edit_times_fit(edited, times@),
    ensures
        opt_view(text) == txt_edited_text(edited, k as int, times@, who@, indent@),
{
    match edited {
        None => None,
        Some(e) => if k < times.len() {
            let tm = &times[k];
            let unsent_diff = match &tm.unsent_diff {
                Some(d) => Some(d.as_str()),
                None => None,
            };
            assert(tm.edit_diffs@.len() == e.parts@[k as int].edit_history@.len());
            format_edited_part(e, k, tm.first_stamp.as_str(), tm.edit_diffs.as_slice(), who, unsent_diff, indent)
        } else {
            None
        },
    }
}

/// The bubbles of a message in the TXT export, one per part of its body: the part's line
/// (see [`txt_part_line`]), with the lines of the part's reactions and the texts of its
/// replies. `text` is the message's text, `edited` its edits with `edit_times` their dates,
/// `who` its sender, `attachments` what came of handing each of its attachments to the
/// exporter, `app` its app bubble or why that could not be formatted, `indent` its indent.
pub fn txt_part_texts<'a>(
    body: &[BubbleComponent<'a>],
    text: Option<&str>,
    edited: Option<&EditedMessage>,
    edit_times: &[EditTimes],
    who: &str,
    attachments: &[AttachmentOutcome<String>],
    app: &Result<String, String>,
    indent: &str,
    reactions: &[Vec<String>],
    replies: &[Vec<String>],
) -> (parts: Vec<PartText>)
    requires
        edit_times_fit(edited, edit_times@),
        reactions@.len() == body@.len(),
        replies@.len() == body@.len(),
    ensures
        parts@.len() == body@.len(),
        forall|k: int|
            0 <= k < body@.len() ==> opt_view((#[trigger] parts@[k]).line) == txt_part_line(
                body@,
                k,
                opt_str_view(text),
                edited,
                edit_times@,
                who@,
                attachments@,
                *app,
                indent@,
            ) && parts@[k].reactions@ == reactions@[k]@ && parts@[k].replies@ == replies@[k]@,
{
    let mut parts: Vec<PartText> = Vec::new();
    let mut a: usize = 0;
    let mut k: usize = 0;
    while k < body.len()
        invariant
            k <= body@.len(),
            parts@.len() == k,
            a == attachment_index_before(body@, attachments@, k as int),
            edit_times_fit(edited, edit_times@),
            reactions@.len() == body@.len(),
            replies@.len() == body@.len(),
            forall|j: int|
                0 <= j < k ==> opt_view((#[trigger] parts@[j]).line) == txt_part_line(
                    body@,
                    j,
                    opt_str_view(text),
                    edited,
                    edit_times@,
                    who@,
                    attachments@,
                    *app,
                    indent@,
                ) && parts@[j].reactions@ == reactions@[j]@ && parts@[j].replies@ == replies@[j]@,
        decreases body@.len() - k,
    {
        proof {
            lemma_attachment_index_bounded(body@, attachments@, k as int);
        }
        let mut next_a = a;
        let line: Option<String> = match &body[k] {
            BubbleComponent::Text(attrs) => match text {
                None => None,
                Some(t) => if is_part_edited(edited, k) {
                    txt_edited(edited, k, edit_times, who, indent)
                } else {
                    Some(format_text_bubble(t, attrs.as_slice()))
                },
            },
            BubbleComponent::Attachment(_) => if a < attachments.len() {
                match &attachments[a] {
                    AttachmentOutcome::Sticker(s) => Some(s.clone()),
                    AttachmentOutcome::Copied(path) => {
                        next_a = a + 1;
                        Some(path.clone())
                    },
                    AttachmentOutcome::Failed(name) => Some(name.clone()),
                }
            } else {
                Some(ATTACHMENT_MISSING.to_owned())
            },
            BubbleComponent::App => match app {
                Ok(bubble) => Some(bubble.clone()),
                Err(why) => Some(app_error_line(why.as_str())),
            },
            BubbleComponent::Retracted => txt_edited(edited, k, edit_times, who, indent),
        };
        let part = PartText {
            line,
            reactions: copy_strings(&reactions[k]),
            replies: copy_strings(&replies[k]),
        };
        parts.push(part);
        a = next_a;
        k += 1;
    }
    parts
}

/// The dates that the JSON of an edited part needs: the timestamp of each version (absolute
/// for the first, relative to the one before for the others; unknown ones are `None`), and
/// how long after sending the part was unsent (when known).
pub struct EditStamps {
    pub timestamps: Vec<Option<i64>>,
    pub unsent_diff: Option<String>,
}

/// Whether there are timestamps for each part of the message's edits, one per version.
pub open spec fn edit_stamps_fit(edited: Option<&EditedMessage>, stamps: Seq<EditStamps>) -> bool {
    match edited {
        Some(e) => stamps.len() == e.parts@.len() && forall|k: int|
            0 <= k < stamps.len() ==> (#[trigger] stamps[k]).timestamps@.len()
                == e.parts@[k].edit_history@.len(),
        None => true,
    }
}

/// Whether `content` is the JSON of the edits of part `k`: nothing when the message has no
/// edits or the part has no JSON of its edits, otherwise that JSON, as the body of an edited
/// text bubble or, for a retracted part, as its `retracted` value.
pub open spec fn ndjson_edited_is<'a>(
    content: PartContentJson<'a>,
    edited: Option<&EditedMessage>,
    k: int,
    stamps: Seq<EditStamps>,
    who: Seq<char>,
    retracted: bool,
) -> bool {
    match edited {
        None => content is Empty,
        Some(e) => if 0 <= k < stamps.len() {
            let ts = stamps[k].timestamps@;
            let ud = opt_view(stamps[k].unsent_diff);
            ||| content is Empty && edited_json_is(None, *e, k as usize, ts, who, ud)
            ||| retracted && (content matches PartContentJson::Retracted(j) && edited_json_is(
                Some(j),
                *e,
                k as usize,
                ts,
                who,
                ud,
            ))
            ||| !retracted && (content matches PartContentJson::Edited(j) && edited_json_is(
                Some(j),
                *e,
                k as usize,
                ts,
                who,
                ud,
            ))
        } else {
            content is Empty
        },
    }
}

/// Whether `content` is what part `k` of a message shows in the NDJSON export:
/// - a text part: nothing without text; the JSON of its edits when it was edited; its body
///   otherwise;
/// - an attachment part: the sticker, the copied attachment or the error of the attachment it
///   uses (see [`attachment_index_before`]), or a missing attachment past the last one;
/// - an app part: the app bubble, or the app error when it could not be formatted;
/// - a retracted part: the JSON of its edits.
pub open spec fn ndjson_part_is<'a, R>(
    content: PartContentJson<'a>,
    body: Seq<BubbleComponent<'a>>,
    k: int,
    text: Option<Seq<char>>,
    edited: Option<&EditedMessage>,
    stamps: Seq<EditStamps>,
    who: Seq<char>,
    outcomes: Seq<AttachmentOutcome<R>>,
    app_ok: bool,
) -> bool {
    match body[k] {
        BubbleComponent::Text(attrs) => match text {
            None => content is Empty,
            Some(t) => if part_is_edited(edited, k) {
                ndjson_edited_is(content, edited, k, stamps, who, false)
            } else {
                content matches PartContentJson::Body(b) && text_body_json_is(b@, t, attrs@)
            },
        },
        BubbleComponent::Attachment(_) => {
            let a = attachment_index_before(body, outcomes, k);
            if a < outcomes.len() {
                match outcomes[a as int] {
                    AttachmentOutcome::Sticker(_) => content == PartContentJson::<'a>::Sticker(
                        a as usize,
                    ),
                    AttachmentOutcome::Copied(_) => content == PartContentJson::<'a>::Attachment(
                        a as usize,
                    ),
                    AttachmentOutcome::Failed(_) => content
                        == PartContentJson::<'a>::AttachmentError(a as usize),
                }
            } else {
                content is AttachmentMissing
            }
        },
        BubbleComponent::App => if app_ok {
            content is App
        } else {
            content is AppError
        },
        BubbleComponent::Retracted => ndjson_edited_is(content, edited, k, stamps, who, true),
    }
}

fn ndjson_edited<'a>(
    edited: Option<&EditedMessage>,
    k: usize,
    stamps: &[EditStamps],
    who: &str,
    retracted: bool,
) -> (content: PartContentJson<'a>)
    requires
        edit_stamps_fit(edited, stamps@),
    ensures
        ndjson_edited_is(content, edited, k as int, stamps@, who@, retracted),
{
    match edited {
        None => PartContentJson::Empty,
        Some(e) => if k < stamps.len() {
            let st = &stamps[k];
            let unsent_diff = match &st.unsent_diff {
                Some(d) => Some(d.as_str()),
                None => None,
            };
            assert(st.timestamps@.len() == e.parts@[k as int].edit_history@.len());
            let json = format_edited_json(e, k, st.timestamps.as_slice(), who, unsent_diff);
            match json {
                Some(j) => if retracted {
                    PartContentJson::Retracted(j)
                } else {
                    PartContentJson::Edited(j)
                },
                None => PartContentJson::Empty,
            }
        } else {
            PartContentJson::Empty
        },
    }
}

/// The content of each bubble of a message in the NDJSON export, one per part of its body
/// (see [`ndjson_part_is`]). `text` is the message's text, `edited` its edits with `stamps`
/// their timestamps, `who` its sender, `attachments` what came of handing each of its
/// attachments to the exporter, and `app_ok` whether its app bubble could be formatted.
pub fn ndjson_part_contents<'a, R>(
    body: &'a [BubbleComponent<'a>],
    text: Option<&'a str>,
    edited: Option<&EditedMessage>,
    stamps: &[EditStamps],
    who: &str,
    attachments: &[AttachmentOutcome<R>],
    app_ok: bool,
) -> (contents: Vec<PartContentJson<'a>>)
    requires
        edit_stamps_fit(edited, stamps@),
    ensures
        contents@.len() == body@.len(),
        forall|k: int|
            0 <= k < body@.len() ==> ndjson_part_is(
                #[trigger] contents@[k],
                body@,
                k,
                opt_str_view(text),
                edited,
                stamps@,
                who@,
                attachments@,
                app_ok,
            ),
{
    let mut contents: Vec<PartContentJson<'a>> = Vec::new();
    let mut a: usize = 0;
    let mut k: usize = 0;
    while k < body.len()
        invariant
            k <= body@.len(),
            contents@.len() == k,
            a == attachment_index_before(body@, attachments@, k as int),
            edit_stamps_fit(edited, stamps@),
            forall|j: int|
                0 <= j < k ==> ndjson_part_is(
                    #[trigger] contents@[j],
                    body@,
                    j,
                    opt_str_view(text),
                    edited,
                    stamps@,
                    who@,
                    attachments@,
                    app_ok,
                ),
        decreases body@.len() - k,
    {
        proof {
            lemma_attachment_index_bounded(body@, attachments@, k as int);
        }
        let mut next_a = a;
        let content: PartContentJson<'a> = match &body[k] {
            BubbleComponent::Text(attrs) => match text {
                None => PartContentJson::Empty,
                Some(t) => if is_part_edited(edited, k) {
                    ndjson_edited(edited, k, stamps, who, false)
                } else {
                    PartContentJson::Body(format_text_body_json(t, attrs.as_slice()))
                },
            },
            BubbleComponent::Attachment(_) => if a < attachments.len() {
                match &attachments[a] {
                    AttachmentOutcome::Sticker(_) => PartContentJson::Sticker(a),
                    AttachmentOutcome::Copied(_) => {
                        next_a = a + 1;
                        PartContentJson::Attachment(a)
                    },
                    AttachmentOutcome::Failed(_) => PartContentJson::AttachmentError(a),
                }
            } else {
                PartContentJson::AttachmentMissing
            },
            BubbleComponent::App => if app_ok {
                PartContentJson::App
            } else {
                PartContentJson::AppError
            },
            BubbleComponent::Retracted => ndjson_edited(edited, k, stamps, who, true),
        };
        contents.push(content);
        a = next_a;
        k += 1;
    }
    contents
}

} // verus!
