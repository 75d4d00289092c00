//! Errors that can happen when parsing `typedstream` data with the legacy simple parser.

use vstd::prelude::*;

verus! {

/// Errors that can happen when parsing `typedstream` data
#[derive(Debug, PartialEq, Eq, Clone, Copy)]
pub enum StreamTypedError {
    NoStartPattern,
    NoEndPattern,
    InvalidPrefix,
    InvalidTimestamp,
}

impl StreamTypedError {
    /// The message that describes the error
    pub fn message(&self) -> (text: String)
        ensures
            text@ == match self {
                StreamTypedError::NoStartPattern => "No start pattern found!"@,
                StreamTypedError::NoEndPattern => "No end pattern found!"@,
                StreamTypedError::InvalidPrefix => "Prefix length is not standard!"@,
                StreamTypedError::InvalidTimestamp => "Timestamp integer is not valid!"@,
            },
    {
        match self {
            StreamTypedError::NoStartPattern => "No start pattern found!".to_owned(),
            StreamTypedError::NoEndPattern => "No end pattern found!".to_owned(),
            StreamTypedError::InvalidPrefix => "Prefix length is not standard!".to_owned(),
            StreamTypedError::InvalidTimestamp => "Timestamp integer is not valid!".to_owned(),
        }
    }
}

} // verus!
