//! Effects that can alter the appearance of message text.

use vstd::prelude::*;

verus! {

/// Text effect container
///
/// Message text may contain any number of traditional styles or one animation.
#[derive(Debug, PartialEq, Eq)]
pub enum TextEffect<'a> {
    /// Default, unstyled text
    Default,
    /// A mentioned contact in the conversation, with the handle that identifies them
    Mention(&'a str),
    /// A clickable link, i.e. `https://`, `tel:`, `mailto:`, and others.
    Link(&'a str),
    /// A one-time code, i.e. from a 2FA message
    OTP,
    /// Traditional formatting styles
    Styles(Vec<Style>),
    /// Animation applied to the text
    Animated(Animation),
    /// Conversions that can be applied to text
    Conversion(Unit),
}

/// The value of a [`TextEffect`].
pub enum TextEffectView {
    Default,
    Mention(Seq<char>),
    Link(Seq<char>),
    OTP,
    Styles(Seq<Style>),
    Animated(Animation),
    Conversion(Unit),
}

impl<'a> View for TextEffect<'a> {
    type V = TextEffectView;

    open spec fn view(&self) -> TextEffectView {
        match self {
            TextEffect::Default => TextEffectView::Default,
            TextEffect::Mention(s) => TextEffectView::Mention(s@),
            TextEffect::Link(s) => TextEffectView::Link(s@),
            TextEffect::OTP => TextEffectView::OTP,
            TextEffect::Styles(v) => TextEffectView::Styles(v@),
            TextEffect::Animated(a) => TextEffectView::Animated(*a),
            TextEffect::Conversion(u) => TextEffectView::Conversion(*u),
        }
    }
}

/// Unit conversion text effect container
#[derive(Debug, PartialEq, Eq)]
pub enum Unit {
    Currency,
    Distance,
    Temperature,
    Timezone,
    Volume,
    Weight,
}

/// Traditional text effect container
#[derive(Debug, PartialEq, Eq)]
pub enum Style {
    /// **Bold** styled text
    Bold,
    /// *Italic* styled text
    Italic,
    /// ~~Strikethrough~~ formatted text
    Strikethrough,
    /// <u>Underline</u> styled text
    Underline,
}

/// Animated text effect container
#[derive(Debug, PartialEq, Eq)]
pub enum Animation {
    Big,
    Small,
    Shake,
    Nod,
    Explode,
    Ripple,
    Bloom,
    Jitter,
}

} // verus!
