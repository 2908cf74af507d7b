use vstd::prelude::*;

verus! {

/// `std::io::Error`, carried through as an opaque value.
#[verifier::external_type_specification]
#[verifier::external_body]
pub struct ExIoError(std::io::Error);

/// `regex::Error`, carried through as an opaque value.
#[verifier::external_type_specification]
#[verifier::external_body]
pub struct ExRegexError(regex::Error);

/// Errors produced by session operations.
#[derive(Debug)]
pub enum PtyError {
    /// Opening the PTY pair failed (kernel rejection, resource exhaustion,
    /// ConPTY unavailable on too-old Windows).
    PtyOpen(String),
    /// Spawning the child command failed (command not found, permission denied).
    Spawn(String),
    /// Resizing the PTY failed (kernel rejection).
    PtyResize(String),
    /// Underlying I/O error reading from or writing to the PTY.
    Io(std::io::Error),
    /// The regex passed to `expect` could not be compiled.
    Regex(regex::Error),
    /// The expected pattern did not appear within the timeout.
    /// The second field is the regex pattern that was being awaited.
    Timeout(std::time::Duration, String),
    /// The child exited before the expected pattern appeared.
    Eof(String),
    /// `send_ctrl` was called with a non-letter character.
    InvalidCtrlChar(char),
    /// Wait for the child exit failed.
    Wait(String),
}

/// Convenience alias for `Result<T, Error>`.
pub type Result<T> = core::result::Result<T, PtyError>;

} // verus!
