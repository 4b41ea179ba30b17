//! Error values shared by the parsers, resolvers and validators.

use vstd::prelude::*;

verus! {

/// The error taxonomy of the whole core.  Every parser or resolver returns a
/// `Result` whose error is one of these variants; the carried `String` is the
/// human-readable message that callers and tests observe.
#[derive(Debug)]
pub enum DockerError {
    /// A file could not be read (only raised by unverified callers that do
    /// I/O on the library's behalf and hand the failure back through it).
    FileError(String),
    /// The declarative manifest text is structurally malformed.
    YamlError(String),
    /// The imperative build script is malformed.
    DockerfileError(String),
    /// A memory-size string such as `"512M"` could not be parsed.
    InvalidResourceLimit(String),
    /// A cross-check after parsing failed (missing variables, missing
    /// volumes, circular dependencies, unreadable referenced files).
    ValidationError(String),
}

impl DockerError {
    /// The message carried by the error, whichever variant holds it.
    pub fn message(&self) -> (r: &String)
        ensures
            r@ == self.text(),
    {
        match self {
            DockerError::FileError(m) => m,
            DockerError::YamlError(m) => m,
            DockerError::DockerfileError(m) => m,
            DockerError::InvalidResourceLimit(m) => m,
            DockerError::ValidationError(m) => m,
        }
    }

    /// The message as a sequence of characters, for contracts.
    pub open spec fn text(&self) -> Seq<char> {
        match self {
            DockerError::FileError(m) => m@,
            DockerError::YamlError(m) => m@,
            DockerError::DockerfileError(m) => m@,
            DockerError::InvalidResourceLimit(m) => m@,
            DockerError::ValidationError(m) => m@,
        }
    }
}

} // verus!
