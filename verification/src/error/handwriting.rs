//! Errors that can happen when parsing `handwriting` data.

use vstd::prelude::*;

use crate::util::text::{digits, number_text};
use vstd::string::to_string_from_display_ensures;

verus! {

/// The error of the `lzma-rs` crate for data that does not decompress.
#[verifier::external_type_specification]
#[verifier::external_body]
pub struct ExLzmaError(lzma_rs::error::Error);

/// Errors that can happen when parsing `handwriting` data
#[derive(Debug)]
pub enum HandwritingError {
    ProtobufError(protobuf::Error),
    InvalidFrameSize(usize),
    XZError(lzma_rs::error::Error),
    CompressionUnknown,
    InvalidStrokesLength(usize, usize),
    ConversionError,
    DecompressedNotSet,
    InvalidDecompressedLength(usize, usize),
}

/// What a [`HandwritingError`] says, without the payload of the outside crates' errors.
pub enum HandwritingErrorView {
    ProtobufError,
    InvalidFrameSize(usize),
    XZError,
    CompressionUnknown,
    InvalidStrokesLength(usize, usize),
    ConversionError,
    DecompressedNotSet,
    InvalidDecompressedLength(usize, usize),
}

impl View for HandwritingError {
    type V = HandwritingErrorView;

    open spec fn view(&self) -> HandwritingErrorView {
        match self {
            HandwritingError::ProtobufError(_) => HandwritingErrorView::ProtobufError,
            HandwritingError::InvalidFrameSize(s) => HandwritingErrorView::InvalidFrameSize(*s),
            HandwritingError::XZError(_) => HandwritingErrorView::XZError,
            HandwritingError::CompressionUnknown => HandwritingErrorView::CompressionUnknown,
            HandwritingError::InvalidStrokesLength(i, l) => HandwritingErrorView::InvalidStrokesLength(*i, *l),
            HandwritingError::ConversionError => HandwritingErrorView::ConversionError,
            HandwritingError::DecompressedNotSet => HandwritingErrorView::DecompressedNotSet,
            HandwritingError::InvalidDecompressedLength(e, g) => HandwritingErrorView::InvalidDecompressedLength(*e, *g),
        }
    }
}

/// The message of a handwriting error, or its start for an error of an outside crate (the
/// rest is that error's own text).
pub open spec fn handwriting_error_message(e: HandwritingErrorView) -> Seq<char> {
    match e {
        HandwritingErrorView::ProtobufError => "failed to parse handwriting protobuf: "@,
        HandwritingErrorView::InvalidFrameSize(size) => "expected size 8, got "@ + digits(
            size as nat,
            10,
        ),
        HandwritingErrorView::XZError => "failed to decompress xz: "@,
        HandwritingErrorView::CompressionUnknown => "compress method unknown"@,
        HandwritingErrorView::InvalidStrokesLength(index, length) => "can't access index "@
            + digits(index as nat, 10) + " on array length "@ + digits(length as nat, 10),
        HandwritingErrorView::ConversionError => "failed to convert num"@,
        HandwritingErrorView::DecompressedNotSet => "decompressed length not set on compressed message"@,
        HandwritingErrorView::InvalidDecompressedLength(expected, got) => "expected decompressed length of "@
            + digits(expected as nat, 10) + ", got "@ + digits(got as nat, 10),
    }
}

impl HandwritingError {
    /// The message that describes the error
    pub fn message(&self) -> (text: String)
        ensures
            match self {
                HandwritingError::ProtobufError(why) => exists|s: String|
                    to_string_from_display_ensures::<protobuf::Error>(why, s) && text@
                        == handwriting_error_message(self@) + s@,
                HandwritingError::XZError(why) => exists|s: String|
                    to_string_from_display_ensures::<lzma_rs::error::Error>(why, s) && text@
                        == handwriting_error_message(self@) + s@,
                _ => text@ == handwriting_error_message(self@),
            },
    {
        match self {
            HandwritingError::ProtobufError(why) => {
                let mut text = "failed to parse handwriting protobuf: ".to_owned();
                let shown = why.to_string();
                text.append(shown.as_str());
                text
            },
            HandwritingError::InvalidFrameSize(size) => {
                let mut text = "expected size 8, got ".to_owned();
                text.append(number_text(*size as u64, 10).as_str());
                text
            },
            HandwritingError::XZError(why) => {
                let mut text = "failed to decompress xz: ".to_owned();
                let shown = why.to_string();
                text.append(shown.as_str());
                text
            },
            HandwritingError::CompressionUnknown => "compress method unknown".to_owned(),
            HandwritingError::InvalidStrokesLength(index, length) => {
                let mut text = "can't access index ".to_owned();
                text.append(number_text(*index as u64, 10).as_str());
                text.append(" on array length ");
                text.append(number_text(*length as u64, 10).as_str());
                text
            },
            HandwritingError::ConversionError => "failed to convert num".to_owned(),
            HandwritingError::DecompressedNotSet => "decompressed length not set on compressed message".to_owned(),
            HandwritingError::InvalidDecompressedLength(expected, got) => {
                let mut text = "expected decompressed length of ".to_owned();
                text.append(number_text(*expected as u64, 10).as_str());
                text.append(", got ");
                text.append(number_text(*got as u64, 10).as_str());
                text
            },
        }
    }
}

} // verus!
