//! Errors that can happen when parsing `typedstream` data.

use std::array::TryFromSliceError;
use std::str::Utf8Error;
use vstd::prelude::*;

use crate::util::text::{digits, number_text};
use vstd::string::to_string_from_display_ensures;

verus! {

/// The standard library's error for a slice converted into an array of the wrong length.
#[verifier::external_type_specification]
#[verifier::external_body]
pub struct ExTryFromSliceError(TryFromSliceError);

/// The standard library's error for bytes that are not valid UTF-8.
#[verifier::external_type_specification]
#[verifier::external_body]
pub struct ExUtf8Error(Utf8Error);

/// Errors that can happen when parsing `typedstream` data
#[derive(Debug)]
pub enum TypedStreamError {
    OutOfBounds(usize, usize),
    InvalidHeader,
    SliceError(TryFromSliceError),
    StringParseError(Utf8Error),
    InvalidArray,
    InvalidPointer(u8),
}

/// What a [`TypedStreamError`] says about the stream, without the payload of the
/// standard library errors it may carry.
pub enum TypedStreamErrorView {
    OutOfBounds(usize, usize),
    InvalidHeader,
    SliceError,
    StringParseError,
    InvalidArray,
    InvalidPointer(u8),
}

impl View for TypedStreamError {
    type V = TypedStreamErrorView;

    open spec fn view(&self) -> TypedStreamErrorView {
        match self {
            TypedStreamError::OutOfBounds(i, l) => TypedStreamErrorView::OutOfBounds(*i, *l),
            TypedStreamError::InvalidHeader => TypedStreamErrorView::InvalidHeader,
            TypedStreamError::SliceError(_) => TypedStreamErrorView::SliceError,
            TypedStreamError::StringParseError(_) => TypedStreamErrorView::StringParseError,
            TypedStreamError::InvalidArray => TypedStreamErrorView::InvalidArray,
            TypedStreamError::InvalidPointer(p) => TypedStreamErrorView::InvalidPointer(*p),
        }
    }
}

/// The message of a typedstream error whose payload is plain values, or the start of the
/// message otherwise (the rest is the standard library error's own text).
pub open spec fn typedstream_error_message(e: TypedStreamErrorView) -> Seq<char> {
    match e {
        TypedStreamErrorView::OutOfBounds(idx, len) => "Index "@ + digits(idx as nat, 16)
            + " is outside of range "@ + digits(len as nat, 16) + "!"@,
        TypedStreamErrorView::InvalidHeader => "Invalid typedstream header!"@,
        TypedStreamErrorView::SliceError => "Unable to slice source stream: "@,
        TypedStreamErrorView::StringParseError => "Failed to parse string: "@,
        TypedStreamErrorView::InvalidArray => "Failed to parse array data"@,
        TypedStreamErrorView::InvalidPointer(p) => "Failed to parse pointer: "@ + digits(
            p as nat,
            10,
        ),
    }
}

impl TypedStreamError {
    /// The message that describes the error; positions are written in hexadecimal.
    pub fn message(&self) -> (text: String)
        ensures
            match self {
                TypedStreamError::SliceError(why) => exists|s: String|
                    to_string_from_display_ensures::<TryFromSliceError>(why, s) && text@
                        == typedstream_error_message(self@) + s@,
                TypedStreamError::StringParseError(why) => exists|s: String|
                    to_string_from_display_ensures::<Utf8Error>(why, s) && text@
                        == typedstream_error_message(self@) + s@,
                _ => text@ == typedstream_error_message(self@),
            },
    {
        match self {
            TypedStreamError::OutOfBounds(idx, len) => {
                let mut text = "Index ".to_owned();
                text.append(number_text(*idx as u64, 16).as_str());
                text.append(" is outside of range ");
                text.append(number_text(*len as u64, 16).as_str());
                text.append("!");
                text
            },
            TypedStreamError::InvalidHeader => "Invalid typedstream header!".to_owned(),
            TypedStreamError::SliceError(why) => {
                let mut text = "Unable to slice source stream: ".to_owned();
                let shown = why.to_string();
                text.append(shown.as_str());
                text
            },
            TypedStreamError::StringParseError(why) => {
                let mut text = "Failed to parse string: ".to_owned();
                let shown = why.to_string();
                text.append(shown.as_str());
                text
            },
            TypedStreamError::InvalidArray => "Failed to parse array data".to_owned(),
            TypedStreamError::InvalidPointer(why) => {
                let mut text = "Failed to parse pointer: ".to_owned();
                text.append(number_text(*why as u64, 10).as_str());
                text
            },
        }
    }
}

} // verus!
