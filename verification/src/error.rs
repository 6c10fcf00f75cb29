//! Why a request could not be answered.

use vstd::prelude::*;

verus! {

/// Each way in which what the other programs wrote can fail to make sense.
#[derive(Clone, Copy, Debug, PartialEq, Eq, Structural)]
pub enum SwitchError {
    /// The bytes are not UTF-8.
    InvalidUtf8,
    /// The settings store did not answer with a quoted name and a newline.
    MalformedPreset,
    /// The active preset is none of the known ones.
    UnknownPreset,
    /// The text is not JSON.
    InvalidJson,
    /// The list of sinks is not a JSON array.
    NotAnArray,
    /// The server's status names no default sink.
    MissingDefaultSink,
    /// A sink that had to be looked at has no name.
    MissingSinkName,
    /// No sink bears the default sink's name.
    UnknownSink,
    /// A sink whose index was needed has none.
    MissingSinkIndex,
}

/// A result that holds text, with the text taken as the characters it consists of.
pub open spec fn text_of(outcome: Result<String, SwitchError>) -> Result<Seq<char>, SwitchError> {
    match outcome {
        Ok(text) => Ok(text@),
        Err(error) => Err(error),
    }
}

} // verus!
