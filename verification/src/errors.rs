use vstd::prelude::*;

verus! {

/// The ways a template can be malformed.
#[derive(Debug, Clone, Copy, PartialEq, Eq, Structural)]
pub enum ErrorKind {
    /// A `{` was opened and the template ended before a matching `}`.
    UnterminatedInterpolation,
    /// An interpolation held no field name before its first `|` (or at all).
    EmptyFieldName,
}

/// A fatal template error, carrying the character offset of the opening
/// brace of the interpolation at fault.
#[derive(Debug, Clone, Copy, PartialEq, Eq, Structural)]
pub struct ParseError {
    pub offset: usize,
    pub kind: ErrorKind,
}

/// Everything that can go wrong inside the library itself.
#[derive(Debug, Clone, Copy, PartialEq, Eq, Structural)]
pub enum Error {
    /// The template is malformed.
    Parse(ParseError),
    /// A data source lacks a usable value for a field that callers require
    /// before rendering (a four-digit year).
    MissingRequiredField,
}

impl ParseError {
    /// What `message` returns, for use in contracts.
    pub open spec fn message_spec(&self) -> Seq<char> {
        if self.kind == ErrorKind::UnterminatedInterpolation {
            "expected '}' to close the interpolation before the template ended"@
        } else {
            "expected a field name within the interpolation braces"@
        }
    }

    /// A short human-readable account of the error.
    pub fn message(&self) -> (r: String)
        ensures
            r@ == self.message_spec(),
    {
        match self.kind {
            ErrorKind::UnterminatedInterpolation => "expected '}' to close the interpolation before the template ended".to_owned(),
            ErrorKind::EmptyFieldName => "expected a field name within the interpolation braces".to_owned(),
        }
    }
}

impl Error {
    /// What `message` returns, for use in contracts.
    pub open spec fn message_spec(&self) -> Seq<char> {
        match self {
            Error::Parse(e) => e.message_spec(),
            Error::MissingRequiredField => "the metadata does not hold a valid date/time"@,
        }
    }

    /// A short human-readable account of the error.
    pub fn message(&self) -> (r: String)
        ensures
            r@ == self.message_spec(),
    {
        match self {
            Error::Parse(e) => e.message(),
            Error::MissingRequiredField => "the metadata does not hold a valid date/time".to_owned(),
        }
    }
}

} // verus!
