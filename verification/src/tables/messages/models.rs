//! Data structures and models that represent message data.

use vstd::prelude::*;

use crate::message_types::text_effects::{TextEffect, TextEffectView};

verus! {

/// Defines the parts of a message bubble, i.e. the content that can exist in a single message.
///
/// A single iMessage contains data that may be represented across multiple bubbles.
/// iMessage bubbles can only contain data of one variant of this enum at a time.
#[derive(Debug, PartialEq, Eq)]
pub enum BubbleComponent<'a> {
    /// A text message with associated formatting, generally representing ranges present in a `NSAttributedString`
    Text(Vec<TextAttributes<'a>>),
    /// An attachment
    Attachment(&'a str),
    /// An app integration
    App,
    /// A component that was retracted, found by parsing the edit history
    Retracted,
}

/// The value of a [`BubbleComponent`].
pub enum BubbleComponentView {
    Text(Seq<TextAttributesView>),
    Attachment(Seq<char>),
    App,
    Retracted,
}

impl<'a> View for BubbleComponent<'a> {
    type V = BubbleComponentView;

    open spec fn view(&self) -> BubbleComponentView {
        match self {
            BubbleComponent::Text(v) => BubbleComponentView::Text(attributes_view(v@)),
            BubbleComponent::Attachment(s) => BubbleComponentView::Attachment(s@),
            BubbleComponent::App => BubbleComponentView::App,
            BubbleComponent::Retracted => BubbleComponentView::Retracted,
        }
    }
}

/// The values of a sequence of bubble components.
pub open spec fn components_view<'a>(v: Seq<BubbleComponent<'a>>) -> Seq<BubbleComponentView> {
    v.map_values(|c: BubbleComponent<'a>| c@)
}

/// Defines different types of services we can receive messages from.
#[derive(Debug)]
pub enum Service<'a> {
    /// An iMessage
    #[allow(non_camel_case_types)]
    iMessage,
    /// A message sent as SMS
    SMS,
    /// Any other type of message
    Other(&'a str),
    /// Used when service field is not set
    Unknown,
}

/// Defines ranges of text and associated attributes parsed from `typedstream` `attributedBody` data.
///
/// Ranges specify locations attributes applied to specific portions of a message's text, as
/// byte positions in its UTF-8 encoding.
#[derive(Debug, PartialEq, Eq)]
pub struct TextAttributes<'a> {
    /// The start index of the affected range of message text
    pub start: usize,
    /// The end index of the affected range of message text
    pub end: usize,
    /// The effects applied to the specified range
    pub effect: TextEffect<'a>,
}

/// The value of a [`TextAttributes`].
pub struct TextAttributesView {
    pub start: usize,
    pub end: usize,
    pub effect: TextEffectView,
}

impl<'a> View for TextAttributes<'a> {
    type V = TextAttributesView;

    open spec fn view(&self) -> TextAttributesView {
        TextAttributesView { start: self.start, end: self.end, effect: self.effect@ }
    }
}

/// The values of a sequence of text attributes.
pub open spec fn attributes_view<'a>(v: Seq<TextAttributes<'a>>) -> Seq<TextAttributesView> {
    v.map_values(|a: TextAttributes<'a>| a@)
}

impl<'a> TextAttributes<'a> {
    pub fn new(start: usize, end: usize, effect: TextEffect<'a>) -> (attributes: Self)
        ensures
            attributes@ == (TextAttributesView { start, end, effect: effect@ }),
    {
        Self { start, end, effect }
    }
}

} // verus!
