//! Failure taxonomy of the execution-session pipeline.
//!
//! Every failure aborts the current request only; sessions never share state,
//! so no error here can affect another in-flight session.

use vstd::prelude::*;

verus! {

/// Why tokenizing an argument string failed.
#[derive(Clone, Copy, Debug, PartialEq, Eq, Structural)]
pub enum TokenizeError {
    /// A `'...'` group was opened but never closed.
    UnterminatedSingleQuote,
    /// A `"..."` group was opened but never closed.
    UnterminatedDoubleQuote,
    /// The input ended directly after a backslash.
    DanglingEscape,
}

/// Failures of the pipeline, by stage.
#[derive(Clone, Copy, Debug, PartialEq, Eq, Structural)]
pub enum CoreError {
    /// The network transfer of a remote input did not complete.
    FetchFailed,
    /// The scratch directory for a session could not be allocated.
    CreationFailed,
    /// A staged file could not be written to the scratch directory.
    WriteFailed,
    /// A filename was not a single path segment and was rejected.
    InvalidFilename,
    /// User-supplied argument text could not be tokenized.
    ParseFailed(TokenizeError),
    /// The external tool could not be started at all.
    SpawnFailed,
    /// A requested file is not present in the session.
    NotFound,
}

impl CoreError {
    /// A short description, one per variant; the library's types carry no
    /// `Display` impl, so callers render errors through this method.
    pub fn message(&self) -> (r: &'static str)
        ensures
            self is FetchFailed ==> r@ == "fetching the remote input failed"@,
            self is CreationFailed ==> r@ == "allocating the session directory failed"@,
            self is WriteFailed ==> r@ == "writing into the session directory failed"@,
            self is InvalidFilename ==> r@ == "the filename is not a single path segment"@,
            self is ParseFailed ==> r@ == "the argument text could not be tokenized"@,
            self is SpawnFailed ==> r@ == "the external tool could not be started"@,
            self is NotFound ==> r@ == "no such file exists in the session"@,
    {
        match self {
            CoreError::FetchFailed => "fetching the remote input failed",
            CoreError::CreationFailed => "allocating the session directory failed",
            CoreError::WriteFailed => "writing into the session directory failed",
            CoreError::InvalidFilename => "the filename is not a single path segment",
            CoreError::ParseFailed(_) => "the argument text could not be tokenized",
            CoreError::SpawnFailed => "the external tool could not be started",
            CoreError::NotFound => "no such file exists in the session",
        }
    }
}

} // verus!
