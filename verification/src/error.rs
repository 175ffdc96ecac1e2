//! The error taxonomy of the I/O core.

use vstd::prelude::*;

verus! {

/// Everything that can go wrong in the core.
///
/// - `ResourceExhausted`: submission capacity was exceeded; reported
///   synchronously by `submit`, never after a suspension.
/// - `InvalidFilename`: a path held an embedded NUL byte; reported before any
///   submission takes place.
/// - `UnexpectedEof`: an exact-length read saw a zero-byte sub-read while the
///   destination buffer still had room.
/// - `Interrupted`: a retryable failure; the exact-length read loops absorb it
///   and never surface it themselves.
/// - `Os`: the kernel reported a failure for one operation; the payload is the
///   raw negative result as delivered in the completion (the OS error code is
///   its negation).
#[derive(Clone, Copy, Debug, PartialEq, Eq, Structural)]
pub enum ErrorKind {
    ResourceExhausted,
    InvalidFilename,
    UnexpectedEof,
    Interrupted,
    Os(i32),
}

impl ErrorKind {
    /// Whether an exact-length read loop retries after this error instead of
    /// propagating it.
    pub fn is_retryable(&self) -> (r: bool)
        ensures
            r == (*self == ErrorKind::Interrupted),
    {
        match self {
            ErrorKind::Interrupted => true,
            _ => false,
        }
    }
}

} // verus!
