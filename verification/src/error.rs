//! What can keep a record from being written.
use vstd::prelude::*;

verus! {

/// The error type of `serde_json`; nothing is read from it here.
#[verifier::external_type_specification]
#[verifier::external_body]
pub struct ExJsonError(serde_json::Error);

/// Why an event was dropped instead of written.
#[derive(Debug)]
pub enum FormatError {
    /// The JSON serializer returned an error. It returns none for a string,
    /// and strings are all that it is given here.
    Json(serde_json::Error),
    /// The custom time pattern cannot be rendered.
    TimePattern,
}

impl FormatError {
    /// A one-line description of the error.
    pub fn describe(&self) -> (r: &'static str)
        ensures
            r@ == (match self {
                FormatError::Json(_) => "the record could not be serialized as JSON"@,
                FormatError::TimePattern => "the time pattern could not be rendered"@,
            }),
    {
        match self {
            FormatError::Json(_) => "the record could not be serialized as JSON",
            FormatError::TimePattern => "the time pattern could not be rendered",
        }
    }
}

} // verus!
