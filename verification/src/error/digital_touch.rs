//! Errors that can happen when parsing `digital touch` data.

use vstd::prelude::*;

use crate::util::text::{digits, number_text, signed_digits, signed_text};
use vstd::string::to_string_from_display_ensures;

verus! {

/// The error of the `protobuf` crate for data that does not decode.
#[verifier::external_type_specification]
#[verifier::external_body]
pub struct ExProtobufError(protobuf::Error);

/// Errors that can happen when parsing `digital touch` data
#[derive(Debug)]
pub enum DigitalTouchError {
    ProtobufError(protobuf::Error),
    UnknownDigitalTouchKind(i32),
    ArraysDoNotMatch(String, usize, String, usize),
}

/// What a [`DigitalTouchError`] says, without the payload of a `protobuf` error.
pub enum DigitalTouchErrorView {
    ProtobufError,
    UnknownDigitalTouchKind(i32),
    ArraysDoNotMatch(Seq<char>, usize, Seq<char>, usize),
}

impl View for DigitalTouchError {
    type V = DigitalTouchErrorView;

    open spec fn view(&self) -> DigitalTouchErrorView {
        match self {
            DigitalTouchError::ProtobufError(_) => DigitalTouchErrorView::ProtobufError,
            DigitalTouchError::UnknownDigitalTouchKind(k) => DigitalTouchErrorView::UnknownDigitalTouchKind(*k),
            DigitalTouchError::ArraysDoNotMatch(n1, v1, n2, v2) => DigitalTouchErrorView::ArraysDoNotMatch(n1@, *v1, n2@, *v2),
        }
    }
}

/// The message of a digital touch error, or its start for a `protobuf` error (the rest is
/// that error's own text).
pub open spec fn digital_touch_error_message(e: DigitalTouchErrorView) -> Seq<char> {
    match e {
        DigitalTouchErrorView::ProtobufError => "failed to parse handwriting protobuf: "@,
        DigitalTouchErrorView::UnknownDigitalTouchKind(k) => "unknown digital touch kind: "@
            + signed_digits(k as int),
        DigitalTouchErrorView::ArraysDoNotMatch(n1, v1, n2, v2) => "length of arrays do not match: "@
            + n1 + "("@ + digits(v1 as nat, 10) + ") != "@ + n2 + "("@ + digits(v2 as nat, 10)
            + ")"@,
    }
}

impl DigitalTouchError {
    /// The message that describes the error
    pub fn message(&self) -> (text: String)
        ensures
            match self {
                DigitalTouchError::ProtobufError(why) => exists|s: String|
                    to_string_from_display_ensures::<protobuf::Error>(why, s) && text@
                        == digital_touch_error_message(self@) + s@,
                _ => text@ == digital_touch_error_message(self@),
            },
    {
        match self {
            DigitalTouchError::ProtobufError(why) => {
                let mut text = "failed to parse handwriting protobuf: ".to_owned();
                let shown = why.to_string();
                text.append(shown.as_str());
                text
            },
            DigitalTouchError::UnknownDigitalTouchKind(kind) => {
                let mut text = "unknown digital touch kind: ".to_owned();
                text.append(signed_text(*kind as i64).as_str());
                text
            },
            DigitalTouchError::ArraysDoNotMatch(n1, v1, n2, v2) => {
                let mut text = "length of arrays do not match: ".to_owned();
                text.append(n1.as_str());
                text.append("(");
                text.append(number_text(*v1 as u64, 10).as_str());
                text.append(") != ");
                text.append(n2.as_str());
                text.append("(");
                text.append(number_text(*v2 as u64, 10).as_str());
                text.append(")");
                text
            },
        }
    }
}

} // verus!
