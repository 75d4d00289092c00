//! The plain text export: how a message, its edits, its reactions and its replies are laid out
//! as lines of text. The texts that need the database, the clock or the disk (dates, names,
//! attachments, app payloads) are given as values.

use vstd::prelude::*;
use vstd::std_specs::iter::IteratorSpec;
use vstd::string::StringSliceAdditionalSpecFns;
use vstd::utf8::{decode_utf8, valid_utf8};

use crate::message_types::edited::{EditStatus, EditedMessage};
use crate::tables::messages::models::TextAttributes;
use crate::util::text::{str_eq, utf8_to_str};

verus! {

/// The name shown for the owner of the database
pub const ME: &'static str = "Me";

/// The name used for the owner of the database in the middle of a sentence
pub const YOU: &'static str = "You";

/// The placeholder that Fitness messages hold where the receiver's name goes
pub const FITNESS_RECEIVER: &'static str = "$(kIMTranscriptPluginBreadcrumbTextReceiverIdentifier)";

/// `string` with a line added: the indent, the part and a line break; nothing when the part
/// is empty.
pub open spec fn with_line(string: Seq<char>, part: Seq<char>, indent: Seq<char>) -> Seq<char> {
    if part.len() == 0 {
        string
    } else {
        string + indent + part + seq!['\n']
    }
}

/// Adds a line to `string`: the indent, the part and a line break, unless the part is empty
pub fn add_line(string: &mut String, part: &str, indent: &str)
    ensures
        final(string)@ == with_line(old(string)@, part@, indent@),
{
    proof {
        reveal_strlit("\n");
    }
    if part.as_bytes().len() != 0 {
        string.append(indent);
        string.append(part);
        string.append("\n");
    }
    proof {
        if part@.len() == 0 {
            assert(part.spec_bytes().len() == 0);
        } else {
            assert(part.spec_bytes().len() != 0);
        }
    }
}

/// The text of `text` between two byte positions, when the bytes there are whole characters.
pub open spec fn text_between(text: Seq<char>, start: usize, end: usize) -> Option<Seq<char>> {
    let bytes = encode_utf8_of(text);
    if start <= end && end <= bytes.len() && valid_utf8(bytes.subrange(start as int, end as int)) {
        Some(decode_utf8(bytes.subrange(start as int, end as int)))
    } else {
        None
    }
}

/// The UTF-8 encoding of a text.
pub open spec fn encode_utf8_of(text: Seq<char>) -> Seq<u8> {
    vstd::utf8::encode_utf8(text)
}

/// The text of `text` between two byte positions, when the bytes there are whole characters
pub fn get_text_between(text: &str, start: usize, end: usize) -> (part: Option<&str>)
    ensures
        match part {
            Some(p) => text_between(text@, start, end) == Some(p@),
            None => text_between(text@, start, end) is None,
        },
{
    let bytes = text.as_bytes();
    if start <= end && end <= bytes.len() {
        let piece = &bytes[start..end];
        assert(piece@ =~= bytes@.subrange(start as int, end as int));
        match utf8_to_str(piece) {
            Ok(part) => Some(part),
            Err(_) => None,
        }
    } else {
        None
    }
}

/// The pieces of text that the attributes of a text bubble cover, from the first `n`
/// attributes, joined; attributes whose range is not whole characters give nothing.
pub open spec fn covered_text(text: Seq<char>, attrs: Seq<(usize, usize)>, n: int) -> Seq<char>
    decreases n,
{
    if n <= 0 || n > attrs.len() {
        seq![]
    } else {
        covered_text(text, attrs, n - 1) + match text_between(text, attrs[n - 1].0, attrs[n - 1].1) {
            Some(piece) => piece,
            None => seq![],
        }
    }
}

/// The ranges of text attributes.
pub open spec fn ranges_of<'a>(attrs: Seq<TextAttributes<'a>>) -> Seq<(usize, usize)> {
    attrs.map_values(|a: TextAttributes<'a>| (a.start, a.end))
}

/// `s` with every match of `from`, from left to right and not overlapping, replaced by `to`.
pub open spec fn replace_all(s: Seq<char>, from: Seq<char>, to: Seq<char>) -> Seq<char>
    decreases s.len(),
{
    if from.len() == 0 || s.len() < from.len() {
        s
    } else if s.take(from.len() as int) == from {
        to + replace_all(s.skip(from.len() as int), from, to)
    } else {
        seq![s[0]] + replace_all(s.skip(1), from, to)
    }
}

/// Whether `s` begins with `prefix`.
pub open spec fn begins_with(s: Seq<char>, prefix: Seq<char>) -> bool {
    prefix.len() <= s.len() && s.take(prefix.len() as int) == prefix
}

/// Calls `str::replace`, which replaces every match of a non-empty pattern, from left to right
/// and without overlaps, by the replacement.
#[verifier::external_body]
fn replace_text(s: &str, from: &str, to: &str) -> (replaced: String)
    requires
        from@.len() > 0,
    ensures
        replaced@ == replace_all(s@, from@, to@),
{
    s.replace(from, to)
}

/// Whether the characters of `s` begin with those of `prefix`
pub fn text_begins_with(s: &str, prefix: &str) -> (begins: bool)
    ensures
        begins == begins_with(s@, prefix@),
{
    let mut it = s.chars();
    let mut pit = prefix.chars();
    let ghost mut i: int = 0;
    loop
        invariant
            0 <= i,
            i <= s@.len() || i <= prefix@.len(),
            i <= prefix@.len(),
            i <= s@.len(),
            it.remaining() == s@.skip(i),
            pit.remaining() == prefix@.skip(i),
            it.obeys_prophetic_iter_laws(),
            pit.obeys_prophetic_iter_laws(),
            s@.take(i) == prefix@.take(i),
        ensures
            begins_with(s@, prefix@) == (i == prefix@.len() && s@.take(i) == prefix@.take(i)),
        decreases prefix@.len() - i,
    {
        match pit.next() {
            None => {
                assert(prefix@.skip(i).len() == 0);
                assert(prefix@.take(i) =~= prefix@);
                return true;
            },
            Some(p) => {
                assert(p == prefix@[i]);
                match it.next() {
                    None => {
                        assert(s@.skip(i).len() == 0);
                        return false;
                    },
                    Some(c) => {
                        assert(c == s@[i]);
                        if c != p {
                            proof {
                                if prefix@.len() <= s@.len() {
                                    assert(s@.take(prefix@.len() as int)[i] == s@[i]);
                                }
                            }
                            return false;
                        }
                        proof {
                            assert(s@.skip(i).drop_first() =~= s@.skip(i + 1));
                            assert(prefix@.skip(i).drop_first() =~= prefix@.skip(i + 1));
                            assert(s@.take(i + 1) =~= s@.take(i).push(c));
                            assert(prefix@.take(i + 1) =~= prefix@.take(i).push(p));
                            i = i + 1;
                        }
                    },
                }
            },
        }
    }
}

/// A text with a character has a byte in its encoding.
proof fn lemma_encoding_nonempty(text: Seq<char>)
    requires
        text.len() > 0,
    ensures
        vstd::utf8::encode_utf8(text).len() > 0,
{
    vstd::utf8::char_is_scalar(text[0]);
    assert(vstd::utf8::encode_utf8(text) == vstd::utf8::encode_scalar(text[0] as u32)
        + vstd::utf8::encode_utf8(text.drop_first()));
}

/// The line of a text bubble: the text its attributes cover (all of the text when they cover
/// none of it), with the Fitness receiver placeholder replaced by [`YOU`] when it begins with
/// it.
pub open spec fn text_bubble_line(text: Seq<char>, ranges: Seq<(usize, usize)>) -> Seq<char> {
    let covered = covered_text(text, ranges, ranges.len() as int);
    let formatted = if covered.len() == 0 {
        text
    } else {
        covered
    };
    if begins_with(formatted, FITNESS_RECEIVER@) {
        replace_all(formatted, FITNESS_RECEIVER@, YOU@)
    } else {
        formatted
    }
}

/// The line of a text bubble of a message whose text is `text`
pub fn format_text_bubble(text: &str, attrs: &[TextAttributes]) -> (line: String)
    ensures
        line@ == text_bubble_line(text@, ranges_of(attrs@)),
{
    let ghost ranges = ranges_of(attrs@);
    let mut formatted = String::new();
    let mut i: usize = 0;
    while i < attrs.len()
        invariant
            i <= attrs@.len(),
            ranges == ranges_of(attrs@),
            formatted@ == covered_text(text@, ranges, i as int),
        decreases attrs@.len() - i,
    {
        if let Some(piece) = get_text_between(text, attrs[i].start, attrs[i].end) {
            formatted.append(piece);
        }
        i += 1;
    }
    // If no text was found above, use the whole text
    let nothing_found = formatted.as_str().as_bytes().len() == 0;
    proof {
        if formatted@.len() > 0 {
            lemma_encoding_nonempty(formatted@);
        } else {
            assert(formatted@ =~= Seq::<char>::empty());
            assert(vstd::utf8::encode_utf8(formatted@) =~= Seq::<u8>::empty());
        }
    }
    if nothing_found {
        formatted = text.to_owned();
    }
    proof {
        reveal_strlit("$(kIMTranscriptPluginBreadcrumbTextReceiverIdentifier)");
    }
    if text_begins_with(formatted.as_str(), FITNESS_RECEIVER) {
        replace_text(formatted.as_str(), FITNESS_RECEIVER, YOU)
    } else {
        formatted
    }
}

/// Who unsent a message part: the owner of the database, by their custom name or [`YOU`],
/// for a message they sent, and `They` otherwise.
pub open spec fn unsent_by(is_from_me: bool, custom_name: Option<Seq<char>>) -> Seq<char> {
    if is_from_me {
        match custom_name {
            Some(name) => name,
            None => YOU@,
        }
    } else {
        "They"@
    }
}

/// Who unsent a message part
pub fn unsent_by_text(is_from_me: bool, custom_name: Option<&str>) -> (who: String)
    ensures
        who@ == unsent_by(is_from_me, match custom_name {
            Some(n) => Some(n@),
            None => None,
        }),
{
    if is_from_me {
        match custom_name {
            Some(name) => name.to_owned(),
            None => YOU.to_owned(),
        }
    } else {
        "They".to_owned()
    }
}

/// The text of the first `n` versions of an edited part: the first after its timestamp, each
/// later one after how much later it was written (when that is known), one per line.
pub open spec fn edit_history_text(
    history: Seq<crate::message_types::edited::EditedEvent>,
    first_stamp: Seq<char>,
    diffs: Seq<Option<String>>,
    indent: Seq<char>,
    n: int,
) -> Seq<char>
    decreases n,
{
    if n <= 0 || n > history.len() {
        seq![]
    } else {
        let before = edit_history_text(history, first_stamp, diffs, indent, n - 1);
        let k = n - 1;
        let head = if k == 0 {
            before + first_stamp + seq![' ']
        } else {
            match diffs[k] {
                Some(d) => before + indent + "Edited "@ + d@ + " later: "@,
                None => before,
            }
        };
        with_line(head, history[k].text@, indent)
    }
}

/// The text of a part of an edited message: its versions for an edited part, who unsent it
/// (and how long after sending, when known) for an unsent part, and nothing for a part that
/// is neither or that the message does not have.
pub open spec fn spec_format_edited(
    edited: EditedMessage,
    part: usize,
    first_stamp: Seq<char>,
    diffs: Seq<Option<String>>,
    who: Seq<char>,
    unsent_diff: Option<Seq<char>>,
    indent: Seq<char>,
) -> Option<Seq<char>> {
    if part >= edited.parts@.len() {
        None
    } else {
        let p = edited.parts@[part as int];
        match p.status {
            EditStatus::Edited => Some(
                edit_history_text(
                    p.edit_history@,
                    first_stamp,
                    diffs,
                    indent,
                    p.edit_history@.len() as int,
                ),
            ),
            EditStatus::Unsent => Some(
                match unsent_diff {
                    Some(diff) => who + " unsent this message part "@ + diff + " after sending!"@,
                    None => who + " unsent this message part!"@,
                },
            ),
            EditStatus::Original => None,
        }
    }
}

/// Formats a part of an edited message. `first_stamp` is the date of its first version,
/// `edit_diffs[k]` how much later than version `k - 1` version `k` was written (when that is
/// known), `who` the person who sent the message and `unsent_diff` how long after sending it
/// was unsent (when known).
pub fn format_edited_part(
    edited: &EditedMessage,
    part: usize,
    first_stamp: &str,
    edit_diffs: &[Option<String>],
    who: &str,
    unsent_diff: Option<&str>,
    indent: &str,
) -> (text: Option<String>)
    requires
        part < edited.parts@.len() ==> edit_diffs@.len() == edited.parts@[part as int].edit_history@.len(),
    ensures
        match text {
            Some(t) => spec_format_edited(
                *edited,
                part,
                first_stamp@,
                edit_diffs@,
                who@,
                match unsent_diff {
                    Some(d) => Some(d@),
                    None => None,
                },
                indent@,
            ) == Some(t@),
            None => spec_format_edited(
                *edited,
                part,
                first_stamp@,
                edit_diffs@,
                who@,
                match unsent_diff {
                    Some(d) => Some(d@),
                    None => None,
                },
                indent@,
            ) is None,
        },
{
    if part >= edited.parts.len() {
        return None;
    }
    let edited_part = &edited.parts[part];
    match edited_part.status {
        EditStatus::Edited => {
            let history = &edited_part.edit_history;
            let mut out_s = String::new();
            let mut k: usize = 0;
            while k < history.len()
                invariant
                    k <= history@.len(),
                    edit_diffs@.len() == history@.len(),
                    out_s@ == edit_history_text(history@, first_stamp@, edit_diffs@, indent@, k as int),
                decreases history@.len() - k,
            {
                if k == 0 {
                    // The first version gets an absolute timestamp
                    out_s.append(first_stamp);
                    out_s.append(" ");
                    proof {
                        reveal_strlit(" ");
                    }
                } else {
                    // Later versions get a relative one
                    match &edit_diffs[k] {
                        Some(diff) => {
                            out_s.append(indent);
                            out_s.append("Edited ");
                            out_s.append(diff.as_str());
                            out_s.append(" later: ");
                        },
                        None => {},
                    }
                }
                add_line(&mut out_s, history[k].text.as_str(), indent);
                k += 1;
            }
            Some(out_s)
        },
        EditStatus::Unsent => {
            let mut out_s = who.to_owned();
            match unsent_diff {
                Some(diff) => {
                    out_s.append(" unsent this message part ");
                    out_s.append(diff);
                    out_s.append(" after sending!");
                },
                None => {
                    out_s.append(" unsent this message part!");
                },
            }
            Some(out_s)
        },
        EditStatus::Original => None,
    }
}

/// The date line of a message: its date, then who read it and how long after it was sent,
/// when that is known. A message from the owner is read by `them`, another by the custom
/// name or `you`.
pub open spec fn time_text(
    date: Seq<char>,
    read_after: Option<Seq<char>>,
    is_from_me: bool,
    custom_name: Option<Seq<char>>,
) -> Seq<char> {
    match read_after {
        Some(time) => if time.len() > 0 {
            let who = if is_from_me {
                "them"@
            } else {
                match custom_name {
                    Some(n) => n,
                    None => "you"@,
                }
            };
            date + " (Read by "@ + who + " after "@ + time + ")"@
        } else {
            date
        },
        None => date,
    }
}

/// The date line of a message
pub fn get_time(date: &str, read_after: Option<&str>, is_from_me: bool, custom_name: Option<&str>) -> (line: String)
    ensures
        line@ == time_text(
            date@,
            match read_after {
                Some(t) => Some(t@),
                None => None,
            },
            is_from_me,
            match custom_name {
                Some(n) => Some(n@),
                None => None,
            },
        ),
{
    let mut line = date.to_owned();
    if let Some(time) = read_after {
        let empty = time.as_bytes().len() == 0;
        proof {
            if time@.len() > 0 {
                lemma_encoding_nonempty(time@);
            } else {
                assert(time@ =~= Seq::<char>::empty());
                assert(vstd::utf8::encode_utf8(time@) =~= Seq::<u8>::empty());
            }
        }
        if !empty {
            let who = if is_from_me {
                "them"
            } else {
                match custom_name {
                    Some(name) => name,
                    None => "you",
                }
            };
            line.append(" (Read by ");
            line.append(who);
            line.append(" after ");
            line.append(time);
            line.append(")");
        }
    }
    line
}

/// The line of a `SharePlay` message
pub fn format_shareplay() -> (line: &'static str)
    ensures
        line@ == "SharePlay Message\nEnded"@,
{
    "SharePlay Message\nEnded"
}

/// The line of a legacy shared location message.
pub open spec fn shared_location_text(started: bool, stopped: bool) -> Seq<char> {
    if started {
        "Started sharing location!"@
    } else if stopped {
        "Stopped sharing location!"@
    } else {
        "Shared location!"@
    }
}

/// The line of a legacy shared location message
pub fn format_shared_location(started: bool, stopped: bool) -> (line: &'static str)
    ensures
        line@ == shared_location_text(started, stopped),
{
    if started {
        return "Started sharing location!";
    } else if stopped {
        return "Stopped sharing location!";
    }
    "Shared location!"
}

/// The line that stands for an attachment that the attachments table does not hold
pub const ATTACHMENT_MISSING: &'static str = "Attachment missing!";

/// The line of an app message that could not be formatted
pub fn app_error_line(why: &str) -> (line: String)
    ensures
        line@ == "Unable to format app message: "@ + why@,
{
    let mut line = "Unable to format app message: ".to_owned();
    line.append(why);
    line
}

/// The parts of a message's header: its date line, its sender, and what is known about it.
pub struct MessageHead {
    /// The date line, from [`get_time`]
    pub date: String,
    /// The name of the sender
    pub sender: String,
    /// Whether the message was deleted from the conversation
    pub deleted: bool,
    pub subject: Option<String>,
    /// Whether the message is a `SharePlay` message
    pub shareplay: bool,
    pub started_sharing_location: bool,
    pub stopped_sharing_location: bool,
    /// The line of the message's expressive, when it has one
    pub expressive: Option<String>,
    /// Whether the message replies to an earlier one
    pub is_reply: bool,
}

/// What one bubble of a message shows: its line (its text, edit history, attachment or app),
/// the lines of its reactions and the texts of its replies.
pub struct PartText {
    pub line: Option<String>,
    pub reactions: Vec<String>,
    pub replies: Vec<String>,
}

/// `acc` with each of `lines` added as a line, in order.
pub open spec fn lines_added(acc: Seq<char>, lines: Seq<String>, indent: Seq<char>, n: int) -> Seq<char>
    decreases n,
{
    if n <= 0 || n > lines.len() {
        acc
    } else {
        with_line(lines_added(acc, lines, indent, n - 1), lines[n - 1]@, indent)
    }
}

/// `acc` with one bubble added: its line, the message's expressive, its reactions under a
/// `Reactions:` line when there are any, then its replies.
pub open spec fn part_added(acc: Seq<char>, head: MessageHead, part: PartText, indent: Seq<char>) -> Seq<char> {
    let a1 = match part.line {
        Some(l) => with_line(acc, l@, indent),
        None => acc,
    };
    let a2 = match head.expressive {
        Some(e) => with_line(a1, e@, indent),
        None => a1,
    };
    let reactions = lines_added(seq![], part.reactions@, indent, part.reactions@.len() as int);
    let a3 = if reactions.len() > 0 {
        with_line(with_line(a2, "Reactions:"@, indent), reactions, indent)
    } else {
        a2
    };
    lines_added(a3, part.replies@, indent, part.replies@.len() as int)
}

/// `acc` with the first `n` bubbles added.
pub open spec fn parts_added(acc: Seq<char>, head: MessageHead, parts: Seq<PartText>, indent: Seq<char>, n: int) -> Seq<char>
    decreases n,
{
    if n <= 0 || n > parts.len() {
        acc
    } else {
        part_added(parts_added(acc, head, parts, indent, n - 1), head, parts[n - 1], indent)
    }
}

/// The indent of a message: `size` spaces.
pub open spec fn spaces(size: nat) -> Seq<char> {
    Seq::new(size, |i: int| ' ')
}

/// The text of a message: its date and sender, whether it was deleted, its subject, whether it
/// is a `SharePlay` or shared location message, then its bubbles, each with its reactions and
/// replies; a top-level message that replies to another says so, and ends with an empty line.
pub open spec fn spec_format_message(head: MessageHead, parts: Seq<PartText>, indent_size: nat) -> Seq<char> {
    let indent = spaces(indent_size);
    let s1 = with_line(with_line(seq![], head.date@, indent), head.sender@, indent);
    let s2 = if head.deleted {
        with_line(s1, "This message was deleted from the conversation!"@, indent)
    } else {
        s1
    };
    let s3 = match head.subject {
        Some(subject) => with_line(s2, subject@, indent),
        None => s2,
    };
    let s4 = if head.shareplay {
        with_line(s3, "SharePlay Message\nEnded"@, indent)
    } else {
        s3
    };
    let s5 = if head.started_sharing_location || head.stopped_sharing_location {
        with_line(
            s4,
            shared_location_text(head.started_sharing_location, head.stopped_sharing_location),
            indent,
        )
    } else {
        s4
    };
    let s6 = parts_added(s5, head, parts, indent, parts.len() as int);
    let s7 = if head.is_reply && indent_size == 0 {
        with_line(s6, "This message responded to an earlier message."@, indent)
    } else {
        s6
    };
    if indent_size == 0 {
        s7.push('\n')
    } else {
        s7
    }
}

/// What ends a message's text: for a top-level message, the note that it replies to an
/// earlier message (when it does) and an empty line; nothing for a reply.
pub open spec fn message_trailer(head: MessageHead, indent_size: nat) -> Seq<char> {
    if indent_size == 0 {
        (if head.is_reply {
            "This message responded to an earlier message."@ + seq!['\n']
        } else {
            seq![]
        }) + seq!['\n']
    } else {
        seq![]
    }
}

proof fn lemma_with_line_prefix(acc: Seq<char>, line: Seq<char>, indent: Seq<char>)
    ensures
        with_line(acc, line, indent) == acc + with_line(seq![], line, indent),
{
    assert(acc + seq![] =~= acc);
    if line.len() > 0 {
        assert(acc + indent + line + seq!['\n'] =~= acc + (Seq::<char>::empty() + indent + line
            + seq!['\n']));
    }
}

proof fn lemma_lines_added_prefix(acc: Seq<char>, lines: Seq<String>, indent: Seq<char>, n: int)
    ensures
        lines_added(acc, lines, indent, n) == acc + lines_added(seq![], lines, indent, n),
    decreases n,
{
    if n <= 0 || n > lines.len() {
        assert(acc + seq![] =~= acc);
    } else {
        lemma_lines_added_prefix(acc, lines, indent, n - 1);
        let before = lines_added(seq![], lines, indent, n - 1);
        lemma_with_line_prefix(acc + before, lines[n - 1]@, indent);
        lemma_with_line_prefix(before, lines[n - 1]@, indent);
        assert(acc + before + with_line(seq![], lines[n - 1]@, indent) =~= acc + (before
            + with_line(seq![], lines[n - 1]@, indent)));
    }
}

#[verifier::rlimit(60)]
proof fn lemma_part_added_prefix(acc: Seq<char>, head: MessageHead, part: PartText, indent: Seq<char>)
    ensures
        part_added(acc, head, part, indent) == acc + part_added(seq![], head, part, indent),
{
    let e = Seq::<char>::empty();
    let a1 = match part.line {
        Some(l) => with_line(acc, l@, indent),
        None => acc,
    };
    let b1 = match part.line {
        Some(l) => with_line(e, l@, indent),
        None => e,
    };
    if let Some(l) = part.line {
        lemma_with_line_prefix(acc, l@, indent);
    }
    assert(acc + e =~= acc);
    assert(a1 == acc + b1);
    let a2 = match head.expressive {
        Some(x) => with_line(a1, x@, indent),
        None => a1,
    };
    let b2 = match head.expressive {
        Some(x) => with_line(b1, x@, indent),
        None => b1,
    };
    if let Some(x) = head.expressive {
        lemma_with_line_prefix(a1, x@, indent);
        lemma_with_line_prefix(b1, x@, indent);
        assert(acc + b1 + with_line(e, x@, indent) =~= acc + (b1 + with_line(e, x@, indent)));
    }
    assert(a2 == acc + b2);
    let reactions = lines_added(seq![], part.reactions@, indent, part.reactions@.len() as int);
    let a3 = if reactions.len() > 0 {
        with_line(with_line(a2, "Reactions:"@, indent), reactions, indent)
    } else {
        a2
    };
    let b3 = if reactions.len() > 0 {
        with_line(with_line(b2, "Reactions:"@, indent), reactions, indent)
    } else {
        b2
    };
    if reactions.len() > 0 {
        lemma_with_line_prefix(a2, "Reactions:"@, indent);
        lemma_with_line_prefix(b2, "Reactions:"@, indent);
        let r1 = with_line(e, "Reactions:"@, indent);
        let r2 = with_line(e, reactions, indent);
        lemma_with_line_prefix(a2 + r1, reactions, indent);
        lemma_with_line_prefix(b2 + r1, reactions, indent);
        assert(acc + b2 + r1 + r2 =~= acc + (b2 + r1 + r2));
    }
    assert(a3 == acc + b3);
    lemma_lines_added_prefix(a3, part.replies@, indent, part.replies@.len() as int);
    lemma_lines_added_prefix(b3, part.replies@, indent, part.replies@.len() as int);
    let rp = lines_added(e, part.replies@, indent, part.replies@.len() as int);
    assert(acc + b3 + rp =~= acc + (b3 + rp));
}

proof fn lemma_parts_added_push(
    acc: Seq<char>,
    head: MessageHead,
    parts: Seq<PartText>,
    p: PartText,
    indent: Seq<char>,
    n: int,
)
    requires
        n <= parts.len(),
    ensures
        parts_added(acc, head, parts.push(p), indent, n) == parts_added(acc, head, parts, indent, n),
    decreases n,
{
    if n > 0 {
        lemma_parts_added_push(acc, head, parts, p, indent, n - 1);
        assert(parts.push(p)[n - 1] == parts[n - 1]);
    }
}

proof fn lemma_parts_added_prefix(acc: Seq<char>, head: MessageHead, parts: Seq<PartText>, indent: Seq<char>, n: int)
    ensures
        parts_added(acc, head, parts, indent, n) == acc + parts_added(seq![], head, parts, indent, n),
    decreases n,
{
    if n <= 0 || n > parts.len() {
        assert(acc + seq![] =~= acc);
    } else {
        lemma_parts_added_prefix(acc, head, parts, indent, n - 1);
        let before = parts_added(seq![], head, parts, indent, n - 1);
        lemma_part_added_prefix(acc + before, head, parts[n - 1], indent);
        lemma_part_added_prefix(before, head, parts[n - 1], indent);
        let c = part_added(seq![], head, parts[n - 1], indent);
        assert(acc + before + c =~= acc + (before + c));
    }
}

/// A message's text begins with its date line and then its sender's line, whatever else it
/// holds.
pub proof fn lemma_format_message_starts_with_date_and_sender(
    head: MessageHead,
    parts: Seq<PartText>,
    indent_size: nat,
)
    ensures
        ({
            let indent = spaces(indent_size);
            let start = with_line(with_line(seq![], head.date@, indent), head.sender@, indent);
            let f = spec_format_message(head, parts, indent_size);
            start.len() <= f.len() && f.take(start.len() as int) == start
        }),
{
    let indent = spaces(indent_size);
    let e = Seq::<char>::empty();
    let s1 = with_line(with_line(e, head.date@, indent), head.sender@, indent);
    let s2 = if head.deleted {
        with_line(s1, "This message was deleted from the conversation!"@, indent)
    } else {
        s1
    };
    lemma_with_line_prefix(s1, "This message was deleted from the conversation!"@, indent);
    let s3 = match head.subject {
        Some(subject) => with_line(s2, subject@, indent),
        None => s2,
    };
    if let Some(subject) = head.subject {
        lemma_with_line_prefix(s2, subject@, indent);
    }
    let s4 = if head.shareplay {
        with_line(s3, "SharePlay Message\nEnded"@, indent)
    } else {
        s3
    };
    lemma_with_line_prefix(s3, "SharePlay Message\nEnded"@, indent);
    let loc = shared_location_text(head.started_sharing_location, head.stopped_sharing_location);
    let s5 = if head.started_sharing_location || head.stopped_sharing_location {
        with_line(s4, loc, indent)
    } else {
        s4
    };
    lemma_with_line_prefix(s4, loc, indent);
    let s6 = parts_added(s5, head, parts, indent, parts.len() as int);
    lemma_parts_added_prefix(s5, head, parts, indent, parts.len() as int);
    let m = "This message responded to an earlier message."@;
    let s7 = if head.is_reply && indent_size == 0 {
        with_line(s6, m, indent)
    } else {
        s6
    };
    lemma_with_line_prefix(s6, m, indent);
    let f = if indent_size == 0 {
        s7.push('\n')
    } else {
        s7
    };
    assert(f == spec_format_message(head, parts, indent_size));
    // every stage only adds text after the one before it
    assert(s2.len() >= s1.len() && s2.take(s1.len() as int) =~= s1);
    assert(s3.len() >= s1.len() && s3.take(s1.len() as int) =~= s1);
    assert(s4.len() >= s1.len() && s4.take(s1.len() as int) =~= s1);
    assert(s5.len() >= s1.len() && s5.take(s1.len() as int) =~= s1);
    assert(s6.len() >= s1.len() && s6.take(s1.len() as int) =~= s1);
    assert(s7.len() >= s1.len() && s7.take(s1.len() as int) =~= s1);
    assert(f.len() >= s1.len() && f.take(s1.len() as int) =~= s1);
}

/// The bubbles of a message are laid out in the order of its body: the text of a message
/// with one more bubble at the end is the text of the message without it, with that bubble's
/// text (its line first, then the rest of the bubble) added just before the end of the
/// message. What ends the message is the same either way.
pub proof fn lemma_format_message_parts_in_order(
    head: MessageHead,
    parts: Seq<PartText>,
    p: PartText,
    indent_size: nat,
)
    ensures
        ({
            let f = spec_format_message(head, parts, indent_size);
            let t = message_trailer(head, indent_size);
            &&& t.len() <= f.len()
            &&& f.skip(f.len() - t.len()) == t
            &&& spec_format_message(head, parts.push(p), indent_size) == f.take(f.len() - t.len())
                + part_added(seq![], head, p, spaces(indent_size)) + t
        }),
        p.line matches Some(l) ==> (l@.len() > 0 ==> part_added(seq![], head, p, spaces(indent_size))
            == spaces(indent_size) + l@ + seq!['\n'] + part_added(
            seq![],
            head,
            PartText { line: None, ..p },
            spaces(indent_size),
        )),
{
    let indent = spaces(indent_size);
    let e = Seq::<char>::empty();
    let s1 = with_line(with_line(e, head.date@, indent), head.sender@, indent);
    let s2 = if head.deleted {
        with_line(s1, "This message was deleted from the conversation!"@, indent)
    } else {
        s1
    };
    let s3 = match head.subject {
        Some(subject) => with_line(s2, subject@, indent),
        None => s2,
    };
    let s4 = if head.shareplay {
        with_line(s3, "SharePlay Message\nEnded"@, indent)
    } else {
        s3
    };
    let s5 = if head.started_sharing_location || head.stopped_sharing_location {
        with_line(
            s4,
            shared_location_text(head.started_sharing_location, head.stopped_sharing_location),
            indent,
        )
    } else {
        s4
    };
    let s6 = parts_added(s5, head, parts, indent, parts.len() as int);
    let n = parts.len() as int;
    lemma_parts_added_push(s5, head, parts, p, indent, n);
    assert(parts.push(p)[n] == p);
    let g6 = parts_added(s5, head, parts.push(p), indent, n + 1);
    assert(g6 == part_added(s6, head, p, indent));
    lemma_part_added_prefix(s6, head, p, indent);
    let c = part_added(e, head, p, indent);
    let t = message_trailer(head, indent_size);
    let m = "This message responded to an earlier message."@;
    reveal_strlit("This message responded to an earlier message.");
    assert(m.len() > 0);
    if indent_size == 0 {
        assert(indent =~= e);
    }
    let f = spec_format_message(head, parts, indent_size);
    assert(f == s6 + t) by {
        if indent_size == 0 {
            if head.is_reply {
                assert(with_line(s6, m, indent) =~= s6 + (m + seq!['\n']));
                assert((s6 + (m + seq!['\n'])).push('\n') =~= s6 + t);
            } else {
                assert(s6.push('\n') =~= s6 + t);
            }
        } else {
            assert(s6 + t =~= s6);
        }
    }
    assert(f.take(f.len() - t.len()) =~= s6);
    assert(f.skip(f.len() - t.len()) =~= t);
    let g = spec_format_message(head, parts.push(p), indent_size);
    assert(g == s6 + c + t) by {
        if indent_size == 0 {
            if head.is_reply {
                assert(with_line(s6 + c, m, indent) =~= s6 + c + (m + seq!['\n']));
                assert((s6 + c + (m + seq!['\n'])).push('\n') =~= s6 + c + t);
            } else {
                assert((s6 + c).push('\n') =~= s6 + c + t);
            }
        } else {
            assert(s6 + c + t =~= s6 + c);
        }
    }
    if let Some(l) = p.line {
        if l@.len() > 0 {
            let q = PartText { line: None, ..p };
            let w = with_line(e, l@, indent);
            assert(w =~= indent + l@ + seq!['\n']);
            lemma_part_added_prefix(w, head, q, indent);
            assert(part_added(e, head, p, indent) == part_added(w, head, q, indent));
        }
    }
}

/// Adds each of `lines` as a line
fn add_lines(string: &mut String, lines: &Vec<String>, indent: &str)
    ensures
        final(string)@ == lines_added(old(string)@, lines@, indent@, lines@.len() as int),
{
    let mut i: usize = 0;
    while i < lines.len()
        invariant
            i <= lines@.len(),
            string@ == lines_added(old(string)@, lines@, indent@, i as int),
        decreases lines@.len() - i,
    {
        add_line(string, lines[i].as_str(), indent);
        i += 1;
    }
}

/// Formats a message, including its reactions and replies, indented by `indent_size` spaces
pub fn format_message_text(head: &MessageHead, parts: &[PartText], indent_size: usize) -> (text: String)
    ensures
        text@ == spec_format_message(*head, parts@, indent_size as nat),
{
    let mut indent = String::new();
    let mut i: usize = 0;
    proof {
        reveal_strlit(" ");
        reveal_strlit("\n");
    }
    while i < indent_size
        invariant
            i <= indent_size,
            indent@ == spaces(i as nat),
            " "@ == seq![' '],
        decreases indent_size - i,
    {
        indent.append(" ");
        i += 1;
        proof {
            assert(indent@ =~= spaces(i as nat));
        }
    }
    let indent = indent.as_str();
    let mut formatted_message = String::new();
    add_line(&mut formatted_message, head.date.as_str(), indent);
    add_line(&mut formatted_message, head.sender.as_str(), indent);
    if head.deleted {
        add_line(&mut formatted_message, "This message was deleted from the conversation!", indent);
    }
    if let Some(subject) = &head.subject {
        add_line(&mut formatted_message, subject.as_str(), indent);
    }
    if head.shareplay {
        add_line(&mut formatted_message, format_shareplay(), indent);
    }
    if head.started_sharing_location || head.stopped_sharing_location {
        add_line(
            &mut formatted_message,
            format_shared_location(head.started_sharing_location, head.stopped_sharing_location),
            indent,
        );
    }
    let mut k: usize = 0;
    let ghost start = formatted_message@;
    while k < parts.len()
        invariant
            k <= parts@.len(),
            formatted_message@ == parts_added(start, *head, parts@, indent@, k as int),
        decreases parts@.len() - k,
    {
        let part = &parts[k];
        if let Some(line) = &part.line {
            add_line(&mut formatted_message, line.as_str(), indent);
        }
        if let Some(expressive) = &head.expressive {
            add_line(&mut formatted_message, expressive.as_str(), indent);
        }
        let mut formatted_reactions = String::new();
        add_lines(&mut formatted_reactions, &part.reactions, indent);
        let empty = formatted_reactions.as_str().as_bytes().len() == 0;
        proof {
            if formatted_reactions@.len() > 0 {
                lemma_encoding_nonempty(formatted_reactions@);
            } else {
                assert(formatted_reactions@ =~= Seq::<char>::empty());
                assert(vstd::utf8::encode_utf8(formatted_reactions@) =~= Seq::<u8>::empty());
            }
        }
        if !empty {
            add_line(&mut formatted_message, "Reactions:", indent);
            add_line(&mut formatted_message, formatted_reactions.as_str(), indent);
        }
        add_lines(&mut formatted_message, &part.replies, indent);
        k += 1;
    }
    if head.is_reply && indent_size == 0 {
        add_line(&mut formatted_message, "This message responded to an earlier message.", indent);
    }
    if indent_size == 0 {
        formatted_message.append("\n");
    }
    formatted_message
}

} // verus!
