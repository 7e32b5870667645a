use vstd::prelude::*;

verus! {

/// Why a template could not be parsed or formatted.
#[derive(Clone, Copy, Debug, PartialEq, Eq, Hash, Structural)]
#[non_exhaustive]
pub enum FormatError {
    /// A placeholder index is beyond the number of supplied arguments.
    InsufficientParameters,
    /// The template is syntactically invalid (unbalanced braces, named
    /// arguments, an illegal spec, ...).
    InvalidFormatString,
    /// The argument does not support the requested format type (e.g. `{:x}`
    /// on a string, or the unsupported `{:p}`).
    UnsupportedFormatType,
    /// The argument referenced by `{:1$}` / `{:.1$}` as a width/precision is
    /// not an unsigned integer.
    ExpectedUsize,
    /// The output sink rejected a write.
    WriteFailed,
}

/// The human-readable message of each error.
pub open spec fn error_message(e: FormatError) -> Seq<char> {
    match e {
        FormatError::InsufficientParameters => "Insufficient parameters"@,
        FormatError::InvalidFormatString => "Invalid format string"@,
        FormatError::UnsupportedFormatType => "Argument does not support the requested format type"@,
        FormatError::ExpectedUsize => "Width/precision argument must be an unsigned integer"@,
        FormatError::WriteFailed => "Output sink rejected a write"@,
    }
}

impl FormatError {
    /// The message describing this error.
    pub fn message(&self) -> (r: &'static str)
        ensures
            r@ == error_message(*self),
    {
        match self {
            FormatError::InsufficientParameters => "Insufficient parameters",
            FormatError::InvalidFormatString => "Invalid format string",
            FormatError::UnsupportedFormatType => "Argument does not support the requested format type",
            FormatError::ExpectedUsize => "Width/precision argument must be an unsigned integer",
            FormatError::WriteFailed => "Output sink rejected a write",
        }
    }
}

} // verus!
