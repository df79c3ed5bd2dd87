//! What can go wrong in a search.

use vstd::prelude::*;

verus! {

/// The error of the `regex` crate: a pattern that is not a regular
/// expression, or one whose program would be too large.
#[verifier::external_type_specification]
#[verifier::external_body]
pub struct ExRegexError(regex::Error);

/// The error of the `glob` crate: a malformed glob.
#[verifier::external_type_specification]
#[verifier::external_body]
pub struct ExPatternError(glob::PatternError);

/// The error of std's readers and writers.
#[verifier::external_type_specification]
#[verifier::external_body]
pub struct ExIoError(std::io::Error);

/// Why a search failed. The first two end a run before any file is looked
/// at; the third belongs to one file and leaves the others alone.
#[derive(Debug)]
pub enum GrepError {
    /// The glob is malformed.
    GlobPatternError(glob::PatternError),
    /// The pattern is not a regular expression.
    GegexPatternError(regex::Error),
    /// Reading or writing failed.
    IoError(std::io::Error),
}

/// The three kinds of error, without what caused them.
#[derive(Clone, Copy, Debug, PartialEq, Eq, Structural)]
pub enum ErrorKind {
    Glob,
    Pattern,
    Io,
}

impl GrepError {
    /// The kind of this error.
    pub open spec fn spec_kind(&self) -> ErrorKind {
        match self {
            GrepError::GlobPatternError(_) => ErrorKind::Glob,
            GrepError::GegexPatternError(_) => ErrorKind::Pattern,
            GrepError::IoError(_) => ErrorKind::Io,
        }
    }

    /// The kind of this error.
    #[verifier::when_used_as_spec(spec_kind)]
    pub fn kind(&self) -> (kind: ErrorKind)
        ensures
            kind == self.spec_kind(),
    {
        match self {
            GrepError::GlobPatternError(_) => ErrorKind::Glob,
            GrepError::GegexPatternError(_) => ErrorKind::Pattern,
            GrepError::IoError(_) => ErrorKind::Io,
        }
    }

    /// What the user is told of this error.
    pub open spec fn spec_message(&self) -> Seq<char> {
        match self {
            GrepError::GlobPatternError(_) => "Glob pattern error"@,
            GrepError::GegexPatternError(_) => "Regex pattern error"@,
            GrepError::IoError(_) => "I/O error"@,
        }
    }

    /// What the user is told of this error.
    pub fn message(&self) -> (text: String)
        ensures
            text@ == self.spec_message(),
    {
        match self {
            GrepError::GlobPatternError(_) => "Glob pattern error".to_owned(),
            GrepError::GegexPatternError(_) => "Regex pattern error".to_owned(),
            GrepError::IoError(_) => "I/O error".to_owned(),
        }
    }
}

impl From<glob::PatternError> for GrepError {
    fn from(cause: glob::PatternError) -> (error: GrepError) {
        GrepError::GlobPatternError(cause)
    }
}

impl vstd::std_specs::convert::FromSpecImpl<glob::PatternError> for GrepError {
    open spec fn obeys_from_spec() -> bool {
        true
    }

    open spec fn from_spec(cause: glob::PatternError) -> GrepError {
        GrepError::GlobPatternError(cause)
    }
}

impl From<regex::Error> for GrepError {
    fn from(cause: regex::Error) -> (error: GrepError) {
        GrepError::GegexPatternError(cause)
    }
}

impl vstd::std_specs::convert::FromSpecImpl<regex::Error> for GrepError {
    open spec fn obeys_from_spec() -> bool {
        true
    }

    open spec fn from_spec(cause: regex::Error) -> GrepError {
        GrepError::GegexPatternError(cause)
    }
}

impl From<std::io::Error> for GrepError {
    fn from(cause: std::io::Error) -> (error: GrepError) {
        GrepError::IoError(cause)
    }
}

impl vstd::std_specs::convert::FromSpecImpl<std::io::Error> for GrepError {
    open spec fn obeys_from_spec() -> bool {
        true
    }

    open spec fn from_spec(cause: std::io::Error) -> GrepError {
        GrepError::IoError(cause)
    }
}

} // verus!
