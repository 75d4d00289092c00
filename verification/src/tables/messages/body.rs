//! Splitting a message body into the bubbles it is displayed as.
//!
//! Positions in the results are byte positions in the UTF-8 encoding of the message text.

use vstd::prelude::*;
use vstd::std_specs::iter::IteratorSpec;
use vstd::string::StringSliceAdditionalSpecFns;
use vstd::utf8::encode_utf8;

use crate::message_types::edited::{edit_statuses, EditStatus, EditedMessage};
use crate::message_types::text_effects::{TextEffect, TextEffectView, Unit};
use crate::tables::messages::models::{
    attributes_view, components_view, BubbleComponent, BubbleComponentView, TextAttributes,
    TextAttributesView,
};
use crate::tables::messages::{Message, MessageView};
use crate::util::text::{
    byte_offset, char_byte_offsets, char_utf8_width, lemma_byte_offset_bound,
    lemma_byte_offset_end, lemma_byte_offset_step, str_eq,
};
use crate::util::typedstream::models::{
    archivables_view, nsstring_text, Archivable, ArchivableView, OutputData,
};
use crate::util::typedstream::parser::table_get;

verus! {

/// Character found in message body text that indicates attachment position
pub const ATTACHMENT_CHAR: char = '\u{FFFC}';

/// Character found in message body text that indicates app message position
pub const APP_CHAR: char = '\u{FFFD}';

/// The bubble that a range of an attributed body gives: a new bubble, or text attributes that
/// continue the current text bubble.
pub enum BubbleResult<'a> {
    New(BubbleComponent<'a>),
    Continuation(TextAttributes<'a>),
}

/// The value of a [`BubbleResult`].
pub enum BubbleResultView {
    New(BubbleComponentView),
    Continuation(TextAttributesView),
}

impl<'a> View for BubbleResult<'a> {
    type V = BubbleResultView;

    open spec fn view(&self) -> BubbleResultView {
        match self {
            BubbleResult::New(c) => BubbleResultView::New(c@),
            BubbleResult::Continuation(a) => BubbleResultView::Continuation(a@),
        }
    }
}

/// The range of an attributed body component: a part number and a length in characters.
pub open spec fn range_of(a: ArchivableView) -> Option<(i64, u64)> {
    match a {
        ArchivableView::Data(items) => if items.len() == 2 && items[0] is SignedInteger
            && items[1] is UnsignedInteger {
            Some((items[0]->SignedInteger_0, items[1]->UnsignedInteger_0))
        } else {
            None
        },
        _ => None,
    }
}

/// The number of key and value objects that follow a component: twice the size of an
/// `NSDictionary`, computed with wrapping arithmetic; zero for any other component.
pub open spec fn attribute_dict_length(a: Option<ArchivableView>) -> usize {
    match a {
        Some(ArchivableView::Object(class, data)) => if class.name == "NSDictionary"@ && data.len()
            > 0 && data[0] is SignedInteger {
            (data[0]->SignedInteger_0).wrapping_mul(2) as usize
        } else {
            0
        },
        _ => 0,
    }
}

/// The position of the first component at or after `i` that is a range, or the number of
/// components if there is none.
pub open spec fn first_range_from(c: Seq<ArchivableView>, i: int) -> int
    decreases c.len() - i,
{
    if i < 0 || i >= c.len() {
        c.len() as int
    } else if range_of(c[i]) is Some {
        i
    } else {
        first_range_from(c, i + 1)
    }
}

/// The components that hold the attributes of a range: those from `idx` up to the next
/// range; when a range or the end comes at `idx` itself, the `num` components after it.
/// Positions wrap as `usize` arithmetic does; a range outside the components gives none.
pub open spec fn dict_objects(c: Seq<ArchivableView>, idx: usize, num: usize) -> Seq<
    ArchivableView,
> {
    if num == 0 {
        seq![]
    } else {
        let j = first_range_from(c, idx as int);
        let last = if j > idx {
            (j - 1) as usize
        } else {
            idx.wrapping_add(num)
        };
        let end = last.wrapping_add(1);
        if idx <= end && end <= c.len() {
            c.subrange(idx as int, end as int)
        } else {
            seq![]
        }
    }
}

/// The byte position of the `i`-th character of `text`, or the length of `text` in bytes when
/// there is no such character.
pub open spec fn char_position(text: Seq<char>, i: usize) -> usize {
    if i < text.len() {
        byte_offset(text, i as int) as usize
    } else {
        encode_utf8(text).len() as usize
    }
}

/// The text of an optional component, or `default`.
pub open spec fn nsstring_or(a: Option<ArchivableView>, default: Seq<char>) -> Seq<char> {
    match a {
        Some(a) => match nsstring_text(a) {
            Some(t) => t,
            None => default,
        },
        None => default,
    }
}

/// The bubble given by the first attribute key at or after `k` that has a meaning, with the
/// range from `start` to `end`; default text when there is none.
pub open spec fn bubble_from(c: Seq<ArchivableView>, k: int, start: usize, end: usize) -> Option<
    BubbleResultView,
>
    decreases c.len() - k,
{
    if k < 0 || k >= c.len() {
        Some(
            BubbleResultView::Continuation(
                TextAttributesView { start, end, effect: TextEffectView::Default },
            ),
        )
    } else {
        match nsstring_text(c[k]) {
            Some(key) => if key == "__kIMFileTransferGUIDAttributeName"@ {
                if k + 1 < c.len() {
                    Some(
                        BubbleResultView::New(
                            BubbleComponentView::Attachment(nsstring_or(Some(c[k + 1]), seq![])),
                        ),
                    )
                } else {
                    None
                }
            } else if key == "__kIMMentionConfirmedMention"@ {
                if k + 1 < c.len() {
                    Some(
                        BubbleResultView::Continuation(
                            TextAttributesView {
                                start,
                                end,
                                effect: TextEffectView::Mention(nsstring_or(Some(c[k + 1]), seq![])),
                            },
                        ),
                    )
                } else {
                    None
                }
            } else if key == "__kIMLinkAttributeName"@ {
                if k + 2 < c.len() {
                    Some(
                        BubbleResultView::Continuation(
                            TextAttributesView {
                                start,
                                end,
                                effect: TextEffectView::Link(nsstring_or(Some(c[k + 2]), seq!['#'])),
                            },
                        ),
                    )
                } else {
                    None
                }
            } else if key == "__kIMOneTimeCodeAttributeName"@ {
                Some(
                    BubbleResultView::Continuation(
                        TextAttributesView { start, end, effect: TextEffectView::OTP },
                    ),
                )
            } else if key == "__kIMCalendarEventAttributeName"@ {
                Some(
                    BubbleResultView::Continuation(
                        TextAttributesView {
                            start,
                            end,
                            effect: TextEffectView::Conversion(Unit::Timezone),
                        },
                    ),
                )
            } else {
                bubble_from(c, k + 1, start, end)
            },
            None => bubble_from(c, k + 1, start, end),
        }
    }
}

/// The bubble that attribute objects `c` give to the characters from `start` to `end` of
/// `text`.
pub open spec fn bubble_type(c: Seq<ArchivableView>, text: Seq<char>, start: usize, end: usize) -> Option<
    BubbleResultView,
> {
    bubble_from(c, 0, char_position(text, start), char_position(text, end))
}

/// Adding a bubble result to the bubbles found so far: text attributes join a text bubble
/// at the end, or start one.
pub open spec fn add_bubble(out: Seq<BubbleComponentView>, bubble: Option<BubbleResultView>) -> Seq<
    BubbleComponentView,
> {
    match bubble {
        None => out,
        Some(BubbleResultView::New(item)) => out.push(item),
        Some(BubbleResultView::Continuation(attrs)) => if out.len() > 0 && out.last() is Text {
            out.update(
                out.len() - 1,
                BubbleComponentView::Text(out.last()->Text_0.push(attrs)),
            )
        } else {
            out.push(BubbleComponentView::Text(seq![attrs]))
        },
    }
}

/// The bubbles of the ranges of components `c` from position `idx` on, the previous range
/// having ended at character `current_end`.
pub open spec fn body_from(
    c: Seq<ArchivableView>,
    text: Seq<char>,
    idx: int,
    current_end: usize,
    out: Seq<BubbleComponentView>,
) -> Seq<BubbleComponentView>
    decreases c.len() - idx,
{
    if idx < 0 || idx >= c.len() {
        out
    } else {
        match range_of(c[idx]) {
            None => body_from(c, text, idx + 1, current_end, out),
            Some((_, length)) => {
                let start = current_end;
                let end = current_end.wrapping_add(length as usize);
                let num = attribute_dict_length(table_get(c, idx + 1));
                let attrs_idx = if num > 0 {
                    idx + 2
                } else {
                    idx + 1
                };
                let objects = dict_objects(c, attrs_idx as usize, num);
                let out1 = add_bubble(out, bubble_type(objects, text, start, end));
                let next = attrs_idx + objects.len();
                if next >= c.len() {
                    out1
                } else {
                    body_from(c, text, next, end, out1)
                }
            },
        }
    }
}

/// Inserting a retracted bubble at the position of each unsent part, from part `i` on.
pub open spec fn retract_from(out: Seq<BubbleComponentView>, parts: Seq<EditStatus>, i: int) -> Seq<
    BubbleComponentView,
>
    decreases parts.len() - i,
{
    if i < 0 || i >= parts.len() {
        out
    } else {
        let out1 = if parts[i] == EditStatus::Unsent {
            if i >= out.len() {
                out.push(BubbleComponentView::Retracted)
            } else {
                out.insert(i, BubbleComponentView::Retracted)
            }
        } else {
            out
        };
        retract_from(out1, parts, i + 1)
    }
}

/// The bubbles of a message body read from its `typedstream` components: `None` when the
/// message has components but no text, or when there are no bubbles at all.
pub open spec fn spec_parse_body_typedstream(m: MessageView) -> Option<Seq<BubbleComponentView>> {
    let found = match m.components {
        Some(c) => match m.text {
            Some(text) => Some(body_from(c, text, 1, 0, seq![])),
            None => None,
        },
        None => Some(seq![]),
    };
    match found {
        None => None,
        Some(out) => {
            let out2 = match m.edited_statuses {
                Some(parts) => retract_from(out, parts, 0),
                None => out,
            };
            if out2.len() == 0 {
                None
            } else {
                Some(out2)
            }
        },
    }
}

/// Default text from byte `start` to byte `end`.
pub open spec fn plain_text(start: usize, end: usize) -> BubbleComponentView {
    BubbleComponentView::Text(
        seq![TextAttributesView { start, end, effect: TextEffectView::Default }],
    )
}

/// The bubbles of `text` from character `i` on, when no attributes are known: each
/// attachment or app character is a bubble of its own, and the text between them is default
/// text. `start` and `end` are the byte positions of the first and last character of the
/// current run of text; a run is kept only when `start < end` at the next replacement
/// character, or when `start <= end` at the end of the text.
pub open spec fn legacy_from(
    text: Seq<char>,
    i: int,
    start: usize,
    end: usize,
    out: Seq<BubbleComponentView>,
) -> Seq<BubbleComponentView>
    decreases text.len() - i,
{
    if i < 0 || i >= text.len() {
        let total = encode_utf8(text).len() as usize;
        if start <= end && start < total {
            out.push(plain_text(start, total))
        } else {
            out
        }
    } else {
        let c = text[i];
        let b = byte_offset(text, i) as usize;
        if c == ATTACHMENT_CHAR || c == APP_CHAR {
            let out1 = if start < end {
                out.push(plain_text(start, b))
            } else {
                out
            };
            let item = if c == ATTACHMENT_CHAR {
                BubbleComponentView::Attachment(seq![])
            } else {
                BubbleComponentView::App
            };
            legacy_from(text, i + 1, (b + 1) as usize, b, out1.push(item))
        } else {
            legacy_from(
                text,
                i + 1,
                if start > end {
                    b
                } else {
                    start
                },
                b,
                out,
            )
        }
    }
}

/// The bubbles of a message body found from its text alone.
pub open spec fn spec_parse_body_legacy(m: MessageView) -> Seq<BubbleComponentView> {
    match m.text {
        Some(text) => legacy_from(text, 0, 0, 0, seq![]),
        None => seq![],
    }
}

/// The range stored in a component, if it is one
fn get_range(component: &Archivable) -> (range: Option<(i64, u64)>)
    ensures
        range == range_of(component@),
{
    if let Archivable::Data(items) = component {
        if items.len() == 2 {
            if let (OutputData::SignedInteger(item), OutputData::UnsignedInteger(end)) = (
                &items[0],
                &items[1],
            ) {
                return Some((*item, *end));
            }
        }
    }
    None
}

/// Given the attributedBody range idxes, get the byte position from the character positions
fn get_char_idx(text: &str, idx: usize, char_indices: &[usize]) -> (position: usize)
    requires
        char_indices@.len() == text@.len(),
        forall|i: int| 0 <= i < text@.len() ==> char_indices@[i] == byte_offset(text@, i),
    ensures
        position == char_position(text@, idx),
{
    if idx < char_indices.len() {
        char_indices[idx]
    } else {
        text.as_bytes().len()
    }
}

/// Get the number of key/value object pairs in a NSDictionary
fn get_attribute_dict_length(component: Option<&Archivable>) -> (length: usize)
    ensures
        length == attribute_dict_length(
            match component {
                Some(c) => Some(c@),
                None => None,
            },
        ),
{
    if let Some(Archivable::Object(class, data)) = component {
        if str_eq(class.name.as_str(), "NSDictionary") {
            if data.len() > 0 {
                if let OutputData::SignedInteger(length) = &data[0] {
                    return length.wrapping_mul(2) as usize;
                }
            }
        }
    }
    0
}

/// Get a specific number of objects that represent the content of a dictionary
fn get_n_dict_objects(components: &[Archivable], idx: usize, num_objects: usize) -> (objects: &[Archivable])
    ensures
        archivables_view(objects@) == dict_objects(
            archivables_view(components@),
            idx,
            num_objects,
        ),
{
    let ghost c = archivables_view(components@);
    if num_objects == 0 {
        let none = &components[0..0];
        proof {
            assert(archivables_view(none@) =~= seq![]);
        }
        return none;
    }
    let mut final_idx = idx.wrapping_add(num_objects);
    let mut i = idx;
    while i < components.len()
        invariant
            c == archivables_view(components@),
            idx <= i,
            i <= components@.len() || i == idx,
            forall|j: int| idx <= j < i ==> range_of(#[trigger] c[j]) is None,
            first_range_from(c, idx as int) == first_range_from(c, i as int),
            final_idx == if i > idx {
                (i - 1) as usize
            } else {
                idx.wrapping_add(num_objects)
            },
        ensures
            i >= components@.len() || range_of(c[i as int]) is Some,
        decreases components@.len() - i,
    {
        // Break the loop if we encounter a new range, which indicates we should move on to the next part
        if get_range(&components[i]).is_some() {
            break;
        }
        final_idx = i;
        i += 1;
    }
    let end = final_idx.wrapping_add(1);
    if idx <= end && end <= components.len() {
        let objects = &components[idx..end];
        proof {
            assert(archivables_view(objects@) =~= c.subrange(idx as int, end as int));
        }
        objects
    } else {
        let none = &components[0..0];
        proof {
            assert(archivables_view(none@) =~= seq![]);
        }
        none
    }
}

/// The value of an optional bubble result.
pub open spec fn opt_bubble_view<'a>(b: Option<BubbleResult<'a>>) -> Option<BubbleResultView> {
    match b {
        Some(r) => Some(r@),
        None => None,
    }
}

/// Determine the type of bubble the current range represents
fn get_bubble_type<'a>(
    components: &'a [Archivable],
    text: &str,
    start: usize,
    end: usize,
    char_indices: &[usize],
) -> (bubble: Option<BubbleResult<'a>>)
    requires
        char_indices@.len() == text@.len(),
        forall|i: int| 0 <= i < text@.len() ==> char_indices@[i] == byte_offset(text@, i),
    ensures
        opt_bubble_view(bubble) == bubble_type(archivables_view(components@), text@, start, end),
{
    let range_start = get_char_idx(text, start, char_indices);
    let range_end = get_char_idx(text, end, char_indices);
    let ghost c = archivables_view(components@);
    proof {
        reveal_strlit("");
        reveal_strlit("#");
    }
    assert(bubble_from(c, 0, range_start, range_end) == bubble_type(c, text@, start, end));
    let mut k: usize = 0;
    while k < components.len()
        invariant
            c == archivables_view(components@),
            k <= components@.len(),
            bubble_type(c, text@, start, end) == bubble_from(c, k as int, range_start, range_end),
            ""@ == Seq::<char>::empty(),
            "#"@ == seq!['#'],
        decreases components@.len() - k,
    {
        assert(c[k as int] == components@[k as int]@);
        if let Some(key_name) = components[k].deserialize_as_nsstring() {
            let rest = components.len() - k;
            assert(rest > 1 ==> c[k + 1] == components@[k + 1]@);
            assert(rest > 2 ==> c[k + 2] == components@[k + 2]@);
            assert(nsstring_text(c[k as int]) == Some(key_name@));
            if str_eq(key_name, "__kIMFileTransferGUIDAttributeName") {
                if rest > 1 {
                    let guid = match components[k + 1].deserialize_as_nsstring() {
                        Some(s) => s,
                        None => "",
                    };
                    return Some(BubbleResult::New(BubbleComponent::Attachment(guid)));
                }
                return None;
            } else if str_eq(key_name, "__kIMMentionConfirmedMention") {
                if rest > 1 {
                    let handle = match components[k + 1].deserialize_as_nsstring() {
                        Some(s) => s,
                        None => "",
                    };
                    return Some(
                        BubbleResult::Continuation(
                            TextAttributes::new(range_start, range_end, TextEffect::Mention(handle)),
                        ),
                    );
                }
                return None;
            } else if str_eq(key_name, "__kIMLinkAttributeName") {
                if rest > 2 {
                    let url = match components[k + 2].deserialize_as_nsstring() {
                        Some(s) => s,
                        None => "#",
                    };
                    return Some(
                        BubbleResult::Continuation(
                            TextAttributes::new(range_start, range_end, TextEffect::Link(url)),
                        ),
                    );
                }
                return None;
            } else if str_eq(key_name, "__kIMOneTimeCodeAttributeName") {
                return Some(
                    BubbleResult::Continuation(
                        TextAttributes::new(range_start, range_end, TextEffect::OTP),
                    ),
                );
            } else if str_eq(key_name, "__kIMCalendarEventAttributeName") {
                return Some(
                    BubbleResult::Continuation(
                        TextAttributes::new(
                            range_start,
                            range_end,
                            TextEffect::Conversion(Unit::Timezone),
                        ),
                    ),
                );
            }
        }
        k += 1;
    }
    Some(
        BubbleResult::Continuation(TextAttributes::new(range_start, range_end, TextEffect::Default)),
    )
}

/// Add a bubble result to the bubbles found so far
fn push_bubble<'a>(out: &mut Vec<BubbleComponent<'a>>, bubble: Option<BubbleResult<'a>>)
    ensures
        components_view(final(out)@) == add_bubble(components_view(old(out)@), opt_bubble_view(bubble)),
{
    match bubble {
        None => {},
        Some(BubbleResult::New(item)) => {
            out.push(item);
            proof {
                assert(components_view(out@) =~= components_view(old(out)@).push(item@));
            }
        },
        Some(BubbleResult::Continuation(attributes)) => {
            let n = out.len();
            let last_is_text = n > 0 && match &out[n - 1] {
                BubbleComponent::Text(_) => true,
                _ => false,
            };
            if last_is_text {
                let last = out.pop();
                match last {
                    Some(BubbleComponent::Text(attrs)) => {
                        let mut attrs = attrs;
                        let ghost before = attrs@;
                        attrs.push(attributes);
                        proof {
                            assert(attributes_view(attrs@) =~= attributes_view(before).push(
                                attributes@,
                            ));
                        }
                        out.push(BubbleComponent::Text(attrs));
                        proof {
                            assert(components_view(out@) =~= components_view(old(out)@).update(
                                n - 1,
                                BubbleComponentView::Text(attributes_view(before).push(attributes@)),
                            ));
                        }
                    },
                    _ => {},
                }
            } else {
                let mut attrs: Vec<TextAttributes<'a>> = Vec::new();
                attrs.push(attributes);
                proof {
                    assert(attributes_view(attrs@) =~= seq![attributes@]);
                }
                out.push(BubbleComponent::Text(attrs));
                proof {
                    assert(components_view(out@) =~= components_view(old(out)@).push(
                        BubbleComponentView::Text(seq![attributes@]),
                    ));
                }
            }
        },
    }
}

/// Insert a retracted bubble at the position of each unsent part of an edited message
fn add_retracted<'a>(out: &mut Vec<BubbleComponent<'a>>, edited: &EditedMessage)
    ensures
        components_view(final(out)@) == retract_from(
            components_view(old(out)@),
            edit_statuses(edited.parts@),
            0,
        ),
{
    let ghost parts = edit_statuses(edited.parts@);
    let mut i: usize = 0;
    while i < edited.parts.len()
        invariant
            parts == edit_statuses(edited.parts@),
            i <= edited.parts@.len(),
            retract_from(components_view(old(out)@), parts, 0) == retract_from(
                components_view(out@),
                parts,
                i as int,
            ),
        decreases edited.parts@.len() - i,
    {
        let ghost before = components_view(out@);
        let unsent = match edited.parts[i].status {
            EditStatus::Unsent => true,
            _ => false,
        };
        if unsent {
            if i >= out.len() {
                out.push(BubbleComponent::Retracted);
                proof {
                    assert(components_view(out@) =~= before.push(BubbleComponentView::Retracted));
                }
            } else {
                out.insert(i, BubbleComponent::Retracted);
                proof {
                    assert(components_view(out@) =~= before.insert(
                        i as int,
                        BubbleComponentView::Retracted,
                    ));
                }
            }
        }
        i += 1;
    }
}

/// Logic to use deserialized typedstream data to parse the message body
///
/// Returns `None` when the message has `typedstream` components but no text, and when no
/// bubble is found.
pub fn parse_body_typedstream(message: &Message) -> (body: Option<Vec<BubbleComponent<'_>>>)
    ensures
        match body {
            Some(v) => spec_parse_body_typedstream(message@) == Some(components_view(v@)),
            None => spec_parse_body_typedstream(message@) is None,
        },
{
    let mut out_v: Vec<BubbleComponent> = Vec::new();
    proof {
        assert(components_view(out_v@) =~= seq![]);
    }
    if let Some(components) = &message.components {
        let text = match &message.text {
            Some(t) => t.as_str(),
            None => return None,
        };
        let ghost c = archivables_view(components@);
        // Apple's positions count characters, so align them with the byte positions of the text
        let char_index_table = char_byte_offsets(text);
        // The first item is the text itself, so skip over it when iterating
        let mut idx: usize = 1;
        let mut current_end: usize = 0;
        while idx < components.len()
            invariant
                c == archivables_view(components@),
                char_index_table@.len() == text@.len(),
                forall|i: int|
                    0 <= i < text@.len() ==> char_index_table@[i] == byte_offset(text@, i),
                idx >= 1,
                body_from(c, text@, 1, 0, seq![]) == body_from(
                    c,
                    text@,
                    idx as int,
                    current_end,
                    components_view(out_v@),
                ),
            decreases components@.len() - idx,
        {
            assert(c[idx as int] == components@[idx as int]@);
            match get_range(&components[idx]) {
                None => {
                    idx += 1;
                },
                Some((_, length)) => {
                    let current_start = current_end;
                    current_end = current_end.wrapping_add(length as usize);
                    let ghost start_idx = idx as int;
                    // The range is followed by a dictionary of attributes that map to that range
                    idx += 1;
                    let dict = if idx < components.len() {
                        Some(&components[idx])
                    } else {
                        None
                    };
                    assert(idx < components@.len() ==> c[idx as int] == components@[idx as int]@);
                    let num_attrs = get_attribute_dict_length(dict);
                    // The next values alternate between keys and values of the dictionary
                    if num_attrs > 0 {
                        idx += 1;
                    }
                    let slice = get_n_dict_objects(components.as_slice(), idx, num_attrs);
                    let bubble = get_bubble_type(
                        slice,
                        text,
                        current_start,
                        current_end,
                        char_index_table.as_slice(),
                    );
                    let ghost out_before = components_view(out_v@);
                    push_bubble(&mut out_v, bubble);
                    // Advance past the attributes just consumed
                    idx += slice.len();
                    proof {
                        assert(table_get(c, start_idx + 1) == match dict {
                            Some(d) => Some(d@),
                            None => None::<ArchivableView>,
                        });
                    }
                },
            }
        }
        assert(body_from(c, text@, 1, 0, seq![]) == components_view(out_v@));
    }
    let ghost found = components_view(out_v@);
    assert(spec_parse_body_typedstream(message@) == {
        let out2 = match message@.edited_statuses {
            Some(parts) => retract_from(found, parts, 0),
            None => found,
        };
        if out2.len() == 0 {
            None
        } else {
            Some(out2)
        }
    });
    // Add retracted components into the body
    if let Some(edited_message) = &message.edited_parts {
        add_retracted(&mut out_v, edited_message);
    }
    if out_v.len() == 0 {
        None
    } else {
        Some(out_v)
    }
}

/// Fallback logic to parse the body from the message string content
pub fn parse_body_legacy(message: &Message) -> (body: Vec<BubbleComponent<'_>>)
    ensures
        components_view(body@) == spec_parse_body_legacy(message@),
{
    let mut out_v: Vec<BubbleComponent> = Vec::new();
    proof {
        assert(components_view(out_v@) =~= seq![]);
        reveal_strlit("");
    }
    // Naive logic for when `typedstream` component parsing fails
    match &message.text {
        Some(text) => {
            let text = text.as_str();
            let total = text.as_bytes().len();
            let mut start: usize = 0;
            let mut end: usize = 0;
            let mut it = text.chars();
            let mut pos: usize = 0;
            let ghost mut i: int = 0;
            proof {
                lemma_byte_offset_bound(text@, 0);
                assert(text@.skip(0) =~= text@);
                assert(text@.take(0) =~= Seq::<char>::empty());
            }
            loop
                invariant
                    0 <= i <= text@.len(),
                    it.remaining() == text@.skip(i),
                    it.obeys_prophetic_iter_laws(),
                    pos == byte_offset(text@, i),
                    total == encode_utf8(text@).len(),
                    ""@ == Seq::<char>::empty(),
                    legacy_from(text@, 0, 0, 0, seq![]) == legacy_from(
                        text@,
                        i,
                        start,
                        end,
                        components_view(out_v@),
                    ),
                ensures
                    i == text@.len(),
                    legacy_from(text@, 0, 0, 0, seq![]) == legacy_from(
                        text@,
                        i,
                        start,
                        end,
                        components_view(out_v@),
                    ),
                decreases text@.len() - i,
            {
                match it.next() {
                    None => {
                        assert(text@.skip(i).len() == 0);
                        break;
                    },
                    Some(ch) => {
                        assert(ch == text@[i]);
                        proof {
                            lemma_byte_offset_step(text@, i);
                            lemma_byte_offset_bound(text@, i + 1);
                            assert(text@.skip(i).drop_first() =~= text@.skip(i + 1));
                        }
                        let idx = pos;
                        let ghost before = components_view(out_v@);
                        if ch == ATTACHMENT_CHAR || ch == APP_CHAR {
                            if start < end {
                                let mut attrs: Vec<TextAttributes> = Vec::new();
                                attrs.push(TextAttributes::new(start, idx, TextEffect::Default));
                                proof {
                                    assert(attributes_view(attrs@) =~= seq![
                                        TextAttributesView {
                                            start,
                                            end: idx,
                                            effect: TextEffectView::Default,
                                        },
                                    ]);
                                }
                                out_v.push(BubbleComponent::Text(attrs));
                            }
                            let ghost mid = components_view(out_v@);
                            proof {
                                assert(mid =~= if start < end {
                                    before.push(plain_text(start, idx))
                                } else {
                                    before
                                });
                            }
                            start = idx + 1;
                            end = idx;
                            if ch == ATTACHMENT_CHAR {
                                out_v.push(BubbleComponent::Attachment(""));
                                proof {
                                    assert(components_view(out_v@) =~= mid.push(
                                        BubbleComponentView::Attachment(seq![]),
                                    ));
                                }
                            } else {
                                out_v.push(BubbleComponent::App);
                                proof {
                                    assert(components_view(out_v@) =~= mid.push(
                                        BubbleComponentView::App,
                                    ));
                                }
                            }
                        } else {
                            if start > end {
                                start = idx;
                            }
                            end = idx;
                        }
                        pos = pos + char_utf8_width(ch);
                        proof {
                            i = i + 1;
                        }
                    },
                }
            }
            if start <= end && start < total {
                let ghost before = components_view(out_v@);
                let mut attrs: Vec<TextAttributes> = Vec::new();
                attrs.push(TextAttributes::new(start, total, TextEffect::Default));
                proof {
                    assert(attributes_view(attrs@) =~= seq![
                        TextAttributesView { start, end: total, effect: TextEffectView::Default },
                    ]);
                }
                out_v.push(BubbleComponent::Text(attrs));
                proof {
                    assert(components_view(out_v@) =~= before.push(plain_text(start, total)));
                }
            }
            out_v
        },
        None => out_v,
    }
}

/// The number of retracted bubbles among `out`.
pub open spec fn retracted_count(out: Seq<BubbleComponentView>) -> nat {
    out.to_multiset().count(BubbleComponentView::Retracted)
}

/// The number of unsent parts from part `i` on.
pub open spec fn unsent_from(parts: Seq<EditStatus>, i: int) -> nat
    decreases parts.len() - i,
{
    if i < 0 || i >= parts.len() {
        0
    } else {
        (if parts[i] == EditStatus::Unsent {
            1nat
        } else {
            0nat
        }) + unsent_from(parts, i + 1)
    }
}

/// Inserting retracted bubbles adds one for each unsent part.
proof fn lemma_retract_from_count(out: Seq<BubbleComponentView>, parts: Seq<EditStatus>, i: int)
    requires
        0 <= i,
    ensures
        retracted_count(retract_from(out, parts, i)) == retracted_count(out) + unsent_from(parts, i),
    decreases parts.len() - i,
{
    broadcast use vstd::seq_lib::group_to_multiset_ensures;

    if i < parts.len() {
        let out1 = if parts[i] == EditStatus::Unsent {
            if i >= out.len() {
                out.push(BubbleComponentView::Retracted)
            } else {
                out.insert(i, BubbleComponentView::Retracted)
            }
        } else {
            out
        };
        lemma_retract_from_count(out1, parts, i + 1);
    }
}

/// Which bubbles are not retracted ones.
pub open spec fn not_retracted() -> spec_fn(BubbleComponentView) -> bool {
    |b: BubbleComponentView| !(b is Retracted)
}

/// The bubbles that stand before part `i` keep their place while retracted bubbles are
/// inserted from part `i` on, and no bubble is lost.
proof fn lemma_retract_keeps_prefix(out: Seq<BubbleComponentView>, parts: Seq<EditStatus>, i: int)
    requires
        0 <= i,
    ensures
        retract_from(out, parts, i).len() >= out.len(),
        forall|p: int| 0 <= p < i && p < out.len() ==> #[trigger] retract_from(out, parts, i)[p] == out[p],
    decreases parts.len() - i,
{
    if i < parts.len() {
        let out1 = if parts[i] == EditStatus::Unsent {
            if i >= out.len() {
                out.push(BubbleComponentView::Retracted)
            } else {
                out.insert(i, BubbleComponentView::Retracted)
            }
        } else {
            out
        };
        if parts[i] == EditStatus::Unsent && i < out.len() {
            out.insert_ensures(i, BubbleComponentView::Retracted);
        }
        lemma_retract_keeps_prefix(out1, parts, i + 1);
        assert forall|p: int| 0 <= p < i && p < out.len() implies #[trigger] retract_from(out, parts, i)[p]
            == out[p] by {
            assert(out1[p] == out[p]);
        }
    }
}

/// From part `i` on, each unsent part whose index falls within the bubbles gets a retracted
/// bubble at that index.
proof fn lemma_retract_at(out: Seq<BubbleComponentView>, parts: Seq<EditStatus>, i: int)
    requires
        0 <= i,
    ensures
        forall|j: int|
            i <= j < parts.len() && j < out.len() && parts[j] == EditStatus::Unsent
                ==> #[trigger] retract_from(out, parts, i)[j] == BubbleComponentView::Retracted,
    decreases parts.len() - i,
{
    if i < parts.len() {
        let out1 = if parts[i] == EditStatus::Unsent {
            if i >= out.len() {
                out.push(BubbleComponentView::Retracted)
            } else {
                out.insert(i, BubbleComponentView::Retracted)
            }
        } else {
            out
        };
        if parts[i] == EditStatus::Unsent && i < out.len() {
            out.insert_ensures(i, BubbleComponentView::Retracted);
        }
        lemma_retract_at(out1, parts, i + 1);
        lemma_retract_keeps_prefix(out1, parts, i + 1);
    }
}

/// Inserting retracted bubbles leaves the other bubbles as they were, in their order.
proof fn lemma_retract_filter(out: Seq<BubbleComponentView>, parts: Seq<EditStatus>, i: int)
    requires
        0 <= i,
    ensures
        retract_from(out, parts, i).filter(not_retracted()) == out.filter(not_retracted()),
    decreases parts.len() - i,
{
    if i < parts.len() {
        let r = BubbleComponentView::Retracted;
        let out1 = if parts[i] == EditStatus::Unsent {
            if i >= out.len() {
                out.push(r)
            } else {
                out.insert(i, r)
            }
        } else {
            out
        };
        if parts[i] == EditStatus::Unsent {
            if i >= out.len() {
                out.lemma_filter_push(r, not_retracted());
            } else {
                let a = out.subrange(0, i);
                let b = out.subrange(i, out.len() as int);
                assert(out =~= a + b);
                Seq::filter_distributes_over_add(a, b, not_retracted());
                Seq::filter_distributes_over_add(a.push(r), b, not_retracted());
                a.lemma_filter_push(r, not_retracted());
            }
        }
        lemma_retract_filter(out1, parts, i + 1);
    }
}

/// Inserting the retracted bubbles puts one at the index of each unsent part that falls
/// within the bubbles found, and leaves every other bubble as it was, in its order.
pub proof fn lemma_retracted_at_unsent_parts(out: Seq<BubbleComponentView>, parts: Seq<EditStatus>)
    ensures
        forall|i: int|
            0 <= i < parts.len() && i < out.len() && parts[i] == EditStatus::Unsent
                ==> #[trigger] retract_from(out, parts, 0)[i] == BubbleComponentView::Retracted,
        retract_from(out, parts, 0).filter(not_retracted()) == out.filter(not_retracted()),
{
    lemma_retract_at(out, parts, 0);
    lemma_retract_filter(out, parts, 0);
}

/// The bubble that attribute objects give is never a retracted one.
proof fn lemma_bubble_from_not_retracted(c: Seq<ArchivableView>, k: int, start: usize, end: usize)
    ensures
        !(bubble_from(c, k, start, end) matches Some(BubbleResultView::New(b)) && b
            == BubbleComponentView::Retracted),
    decreases c.len() - k,
{
    if 0 <= k < c.len() {
        lemma_bubble_from_not_retracted(c, k + 1, start, end);
    }
}

/// Adding a bubble that is not a retracted one keeps the number of retracted bubbles.
proof fn lemma_add_bubble_count(out: Seq<BubbleComponentView>, bubble: Option<BubbleResultView>)
    requires
        !(bubble matches Some(BubbleResultView::New(b)) && b == BubbleComponentView::Retracted),
    ensures
        retracted_count(add_bubble(out, bubble)) == retracted_count(out),
{
    broadcast use vstd::seq_lib::group_to_multiset_ensures;
    broadcast use vstd::multiset::group_multiset_axioms;

}

/// The bubbles of the ranges of components hold no retracted bubble beyond those given.
proof fn lemma_body_from_count(
    c: Seq<ArchivableView>,
    text: Seq<char>,
    idx: int,
    current_end: usize,
    out: Seq<BubbleComponentView>,
)
    ensures
        retracted_count(body_from(c, text, idx, current_end, out)) == retracted_count(out),
    decreases c.len() - idx,
{
    if 0 <= idx < c.len() {
        match range_of(c[idx]) {
            None => {
                lemma_body_from_count(c, text, idx + 1, current_end, out);
            },
            Some((_, length)) => {
                let end = current_end.wrapping_add(length as usize);
                let num = attribute_dict_length(table_get(c, idx + 1));
                let attrs_idx = if num > 0 {
                    idx + 2
                } else {
                    idx + 1
                };
                let objects = dict_objects(c, attrs_idx as usize, num);
                let bubble = bubble_type(objects, text, current_end, end);
                lemma_bubble_from_not_retracted(
                    objects,
                    0,
                    char_position(text, current_end),
                    char_position(text, end),
                );
                lemma_add_bubble_count(out, bubble);
                let next = attrs_idx + objects.len();
                if next < c.len() {
                    lemma_body_from_count(c, text, next, end, add_bubble(out, bubble));
                }
            },
        }
    }
}

/// Each unsent part of an edited message shows as one retracted bubble of its body, and no
/// other bubble is a retracted one.
pub proof fn lemma_unsent_parts_are_retracted(m: MessageView)
    ensures
        spec_parse_body_typedstream(m) matches Some(v) ==> retracted_count(v) == match m.edited_statuses {
            Some(parts) => unsent_from(parts, 0),
            None => 0,
        },
{
    broadcast use vstd::seq_lib::group_to_multiset_ensures;

    let empty = Seq::<BubbleComponentView>::empty();
    assert(retracted_count(empty) == 0);
    let found = match m.components {
        Some(c) => match m.text {
            Some(text) => {
                lemma_body_from_count(c, text, 1, 0, empty);
                Some(body_from(c, text, 1, 0, empty))
            },
            None => None,
        },
        None => Some(empty),
    };
    if let Some(out) = found {
        if let Some(parts) = m.edited_statuses {
            lemma_retract_from_count(out, parts, 0);
        }
    }
}

/// The bubbles other than text, in order.
pub open spec fn non_text(out: Seq<BubbleComponentView>) -> Seq<BubbleComponentView>
    decreases out.len(),
{
    if out.len() == 0 {
        seq![]
    } else if out.last() is Text {
        non_text(out.drop_last())
    } else {
        non_text(out.drop_last()).push(out.last())
    }
}

/// The bubbles that the replacement characters of `text` stand for, from character `i` on:
/// an attachment for each attachment character, an app for each app character.
pub open spec fn replacements(text: Seq<char>, i: int) -> Seq<BubbleComponentView>
    decreases text.len() - i,
{
    if i < 0 || i >= text.len() {
        seq![]
    } else if text[i] == ATTACHMENT_CHAR {
        seq![BubbleComponentView::Attachment(seq![])] + replacements(text, i + 1)
    } else if text[i] == APP_CHAR {
        seq![BubbleComponentView::App] + replacements(text, i + 1)
    } else {
        replacements(text, i + 1)
    }
}

/// Whether every text bubble of `out` is one run of default text from `start` to `end` with
/// `start < end <= total`.
pub open spec fn text_runs_within(out: Seq<BubbleComponentView>, total: int) -> bool {
    forall|k: int|
        0 <= k < out.len() && (#[trigger] out[k]) is Text ==> {
            let attrs = out[k]->Text_0;
            &&& attrs.len() == 1
            &&& attrs[0].effect == TextEffectView::Default
            &&& attrs[0].start < attrs[0].end <= total
        }
}

/// From character `i` on: the bubbles other than text are those of the replacement characters
/// in order, and every text bubble is a run of default text within the text.
proof fn lemma_legacy_from(
    text: Seq<char>,
    i: int,
    start: usize,
    end: usize,
    out: Seq<BubbleComponentView>,
)
    requires
        0 <= i <= text.len(),
        encode_utf8(text).len() <= usize::MAX,
        start < end ==> end < byte_offset(text, i),
        text_runs_within(out, encode_utf8(text).len() as int),
    ensures
        non_text(legacy_from(text, i, start, end, out)) == non_text(out) + replacements(text, i),
        text_runs_within(legacy_from(text, i, start, end, out), encode_utf8(text).len() as int),
    decreases text.len() - i,
{
    let total = encode_utf8(text).len() as int;
    if i >= text.len() {
        assert(non_text(out) + seq![] =~= non_text(out));
        if start <= end && start < total {
            let pushed = out.push(plain_text(start, total as usize));
            assert(pushed.drop_last() =~= out);
            assert(text_runs_within(pushed, total));
        }
    } else {
        lemma_byte_offset_step(text, i);
        lemma_byte_offset_bound(text, i + 1);
        let c = text[i];
        let b = byte_offset(text, i) as usize;
        if c == ATTACHMENT_CHAR || c == APP_CHAR {
            let out1 = if start < end {
                out.push(plain_text(start, b))
            } else {
                out
            };
            if start < end {
                assert(out1.drop_last() =~= out);
                assert(text_runs_within(out1, total));
            }
            assert(non_text(out1) == non_text(out));
            let item = if c == ATTACHMENT_CHAR {
                BubbleComponentView::Attachment(seq![])
            } else {
                BubbleComponentView::App
            };
            let out2 = out1.push(item);
            assert(out2.drop_last() =~= out1);
            assert(non_text(out2) == non_text(out).push(item));
            assert(text_runs_within(out2, total));
            lemma_legacy_from(text, i + 1, (b + 1) as usize, b, out2);
            assert(non_text(out).push(item) + replacements(text, i + 1) =~= non_text(out)
                + replacements(text, i));
        } else {
            lemma_legacy_from(
                text,
                i + 1,
                if start > end {
                    b
                } else {
                    start
                },
                b,
                out,
            );
        }
    }
}

/// A body found from text alone has one bubble for each attachment or app character, in
/// order, and its other bubbles are runs of default text that lie within the text.
pub proof fn lemma_legacy_body(m: MessageView)
    requires
        m.text matches Some(text) ==> encode_utf8(text).len() <= usize::MAX,
    ensures
        m.text matches Some(text) ==> {
            &&& non_text(spec_parse_body_legacy(m)) == replacements(text, 0)
            &&& text_runs_within(spec_parse_body_legacy(m), encode_utf8(text).len() as int)
        },
{
    if let Some(text) = m.text {
        let empty = Seq::<BubbleComponentView>::empty();
        assert(text.take(0) =~= Seq::<char>::empty());
        assert(non_text(empty) + replacements(text, 0) =~= replacements(text, 0));
        lemma_legacy_from(text, 0, 0, 0, empty);
    }
}

/// Whether a character stands for an attachment or an app.
pub open spec fn is_replacement(c: char) -> bool {
    c == ATTACHMENT_CHAR || c == APP_CHAR
}

/// The position of the first attachment or app character at or after `i`, or the length of
/// the text when there is none.
pub open spec fn run_end(text: Seq<char>, i: int) -> int
    decreases text.len() - i,
{
    if i < 0 || i >= text.len() {
        text.len() as int
    } else if is_replacement(text[i]) {
        i
    } else {
        run_end(text, i + 1)
    }
}

/// The bubbles of `text` from character `i` on, read directly: an attachment or an app for each
/// replacement character, and a run of default text for each maximal run of other characters,
/// except a run of one character that a replacement character follows.
pub open spec fn direct_legacy(text: Seq<char>, i: int) -> Seq<BubbleComponentView>
    decreases text.len() - i, 1int,
{
    if i < 0 || i >= text.len() {
        seq![]
    } else if is_replacement(text[i]) {
        seq![
            if text[i] == ATTACHMENT_CHAR {
                BubbleComponentView::Attachment(seq![])
            } else {
                BubbleComponentView::App
            },
        ] + direct_legacy(text, i + 1)
    } else {
        run_bubbles(text, i)
    }
}

/// The bubbles of `text` from the run of other characters that starts at character `i`.
pub open spec fn run_bubbles(text: Seq<char>, i: int) -> Seq<BubbleComponentView>
    decreases text.len() - i, 0int,
{
    if i < 0 || i >= text.len() || is_replacement(text[i]) {
        seq![]
    } else {
        let j = run_end(text, i);
        proof {
            lemma_run_end_after(text, i);
        }
        let run = if j == text.len() || j - i >= 2 {
            seq![plain_text(byte_offset(text, i) as usize, byte_offset(text, j) as usize)]
        } else {
            seq![]
        };
        run + direct_legacy(text, j)
    }
}

/// A run that starts at a character that is not a replacement ends after it.
pub proof fn lemma_run_end_after(text: Seq<char>, i: int)
    requires
        0 <= i < text.len(),
        !is_replacement(text[i]),
    ensures
        i < run_end(text, i) <= text.len(),
        run_end(text, i) == text.len() || is_replacement(text[run_end(text, i)]),
    decreases text.len() - i,
{
    assert(run_end(text, i) == run_end(text, i + 1));
    if i + 1 < text.len() && !is_replacement(text[i + 1]) {
        lemma_run_end_after(text, i + 1);
    } else if i + 1 < text.len() {
        assert(run_end(text, i + 1) == i + 1);
    } else {
        assert(run_end(text, i + 1) == text.len());
    }
}

/// Byte positions grow with character positions.
proof fn lemma_byte_offset_grows(text: Seq<char>, i: int, j: int)
    requires
        0 <= i < j <= text.len(),
    ensures
        byte_offset(text, i) < byte_offset(text, j),
    decreases j - i,
{
    lemma_byte_offset_step(text, j - 1);
    crate::util::text::char_utf8_width_positive(text[j - 1]);
    if i < j - 1 {
        lemma_byte_offset_grows(text, i, j - 1);
    }
}

/// Reading the text from character `k` with no run open (at the start, or just after a
/// replacement character) gives the direct reading from `k`; with a run open since character
/// `i`, it gives that run and then the direct reading from its end.
proof fn lemma_legacy_from_direct(
    text: Seq<char>,
    k: int,
    i: int,
    start: usize,
    end: usize,
    out: Seq<BubbleComponentView>,
)
    requires
        0 <= k <= text.len(),
        encode_utf8(text).len() <= usize::MAX,
        i == k ==> (k == 0 && start == 0 && end == 0) || (k > 0 && is_replacement(text[k - 1])
            && start == byte_offset(text, k - 1) + 1 && end == byte_offset(text, k - 1)),
        i < k ==> 0 <= i && !is_replacement(text[i]) && run_end(text, i) == run_end(text, k)
            && start == byte_offset(text, i) && end == byte_offset(text, k - 1),
        i <= k,
    ensures
        i == k ==> legacy_from(text, k, start, end, out) == out + direct_legacy(text, k),
        i < k ==> legacy_from(text, k, start, end, out) == out + run_bubbles(text, i),
    decreases text.len() - k,
{
    lemma_byte_offset_end(text);
    if k > 0 {
        lemma_byte_offset_bound(text, k - 1);
        lemma_byte_offset_grows(text, k - 1, text.len() as int);
    }
    if i < k {
        lemma_run_end_after(text, i);
        lemma_byte_offset_bound(text, i);
        lemma_byte_offset_grows(text, i, text.len() as int);
        if i < k - 1 {
            lemma_byte_offset_grows(text, i, k - 1);
        }
    }
    let total = encode_utf8(text).len() as usize;
    if k >= text.len() {
        if i < k {
            assert(run_end(text, i) == text.len());
            assert(out.push(plain_text(start, total)) =~= out + run_bubbles(text, i));
        } else {
            assert(out =~= out + direct_legacy(text, k));
        }
    } else {
        lemma_byte_offset_step(text, k);
        lemma_byte_offset_bound(text, k + 1);
        let c = text[k];
        let b = byte_offset(text, k) as usize;
        if is_replacement(c) {
            let out1 = if start < end {
                out.push(plain_text(start, b))
            } else {
                out
            };
            let item = if c == ATTACHMENT_CHAR {
                BubbleComponentView::Attachment(seq![])
            } else {
                BubbleComponentView::App
            };
            lemma_legacy_from_direct(text, k + 1, k + 1, (b + 1) as usize, b, out1.push(item));
            if i < k {
                assert(run_end(text, k) == k);
                assert(out1.push(item) + direct_legacy(text, k + 1) =~= out + run_bubbles(text, i));
            } else {
                assert(out1 == out);
                assert(out1.push(item) + direct_legacy(text, k + 1) =~= out + direct_legacy(text, k));
            }
        } else {
            if i < k {
                lemma_legacy_from_direct(text, k + 1, i, start, b, out);
                assert(run_end(text, k) == run_end(text, k + 1));
            } else {
                lemma_legacy_from_direct(text, k + 1, k, b, b, out);
                assert(run_end(text, k) == run_end(text, k + 1));
                assert(direct_legacy(text, k) == run_bubbles(text, k));
            }
        }
    }
}

/// A body found from text alone is read directly from the text: an attachment or an app for
/// each replacement character, and a run of default text, with its byte range, for each
/// maximal run of other characters, except a run of one character that a replacement
/// character follows.
pub proof fn lemma_legacy_body_direct(m: MessageView)
    requires
        m.text matches Some(text) ==> encode_utf8(text).len() <= usize::MAX,
    ensures
        m.text matches Some(text) ==> spec_parse_body_legacy(m) == direct_legacy(text, 0),
{
    if let Some(text) = m.text {
        let empty = Seq::<BubbleComponentView>::empty();
        lemma_legacy_from_direct(text, 0, 0, 0, 0, empty);
        assert(empty + direct_legacy(text, 0) =~= direct_legacy(text, 0));
    }
}

} // verus!
