//! Failures of positional and sequential transfers.

use vstd::prelude::*;

verus! {

/// The category of a failure, as far as this library tells failures apart.
#[derive(Clone, Copy, Debug, PartialEq, Eq, Structural)]
pub enum ErrorKind {
    /// The call was interrupted before it transferred anything; it can be
    /// made again as it was.
    Interrupted,
    /// The source ended before the buffer was full.
    UnexpectedEof,
    /// A write made no progress on a buffer that still held bytes.
    WriteZero,
    /// A seek would have moved to a negative or overflowing position, or
    /// another argument was out of place.
    InvalidInput,
    /// The operation needs what the value at hand cannot know.
    Unsupported,
    /// What was asked for is not there.
    NotFound,
    /// The caller may not do this.
    PermissionDenied,
    /// What was to be made is there already.
    AlreadyExists,
    /// The call would have had to wait and was told not to.
    WouldBlock,
    /// The bytes found are not what they have to be.
    InvalidData,
    /// The time allowed ran out.
    TimedOut,
    /// The other end of a pipe is closed.
    BrokenPipe,
    /// The connection was refused.
    ConnectionRefused,
    /// The connection was reset.
    ConnectionReset,
    /// The connection was aborted.
    ConnectionAborted,
    /// There is no connection.
    NotConnected,
    /// The address is in use.
    AddrInUse,
    /// The address cannot be had.
    AddrNotAvailable,
    /// The memory needed could not be had.
    OutOfMemory,
    /// Any other failure of the platform underneath.
    Other,
}

/// A failure: its kind, the platform's error code where the platform raised
/// it, and a fixed description.
#[derive(Clone, Copy, Debug, PartialEq, Eq)]
pub struct Error {
    pub kind: ErrorKind,
    pub code: Option<i32>,
    pub message: &'static str,
}

impl Error {
    /// A failure of the given kind that no platform code stands behind.
    pub fn new(kind: ErrorKind, message: &'static str) -> (e: Error)
        ensures
            e == (Error { kind, code: None, message }),
    {
        Error { kind, code: None, message }
    }

    /// A failure that the platform reported under `code`.
    pub fn from_raw_os_error(kind: ErrorKind, code: i32) -> (e: Error)
        ensures
            e == (Error { kind, code: Some(code), message: "" }),
    {
        Error { kind, code: Some(code), message: "" }
    }

    /// The kind of this failure.
    pub fn kind(&self) -> (k: ErrorKind)
        ensures
            k == self.kind,
    {
        self.kind
    }

    /// The platform's error code, where the platform raised the failure.
    pub fn raw_os_error(&self) -> (c: Option<i32>)
        ensures
            c == self.code,
    {
        self.code
    }

    /// The fixed description given when the failure was made.
    pub fn message(&self) -> (m: &'static str)
        ensures
            m == self.message,
    {
        self.message
    }

    /// Whether the failed call may simply be made again.
    pub fn is_interrupted(&self) -> (b: bool)
        ensures
            b == (self.kind == ErrorKind::Interrupted),
    {
        self.kind == ErrorKind::Interrupted
    }
}

/// The failure of an exact read that met the end of the source.
pub open spec fn spec_fill_buffer_error() -> Error {
    Error { kind: ErrorKind::UnexpectedEof, code: None, message: "failed to fill whole buffer" }
}

/// The failure of an exact write that could not place all of its bytes.
pub open spec fn spec_write_buffer_error() -> Error {
    Error { kind: ErrorKind::WriteZero, code: None, message: "failed to write whole buffer" }
}

/// The failure of a relative seek that leaves the range of offsets.
pub open spec fn spec_invalid_seek() -> Error {
    Error {
        kind: ErrorKind::InvalidInput,
        code: None,
        message: "invalid seek to a negative or overflowing position",
    }
}

/// The failure of a seek relative to an end that is not known.
pub open spec fn spec_unsupported() -> Error {
    Error { kind: ErrorKind::Unsupported, code: None, message: "unsupported seek to end of stream" }
}

#[verifier::when_used_as_spec(spec_fill_buffer_error)]
pub fn fill_buffer_error() -> (e: Error)
    ensures
        e == spec_fill_buffer_error(),
{
    Error::new(ErrorKind::UnexpectedEof, "failed to fill whole buffer")
}

#[verifier::when_used_as_spec(spec_write_buffer_error)]
pub fn write_buffer_error() -> (e: Error)
    ensures
        e == spec_write_buffer_error(),
{
    Error::new(ErrorKind::WriteZero, "failed to write whole buffer")
}

#[verifier::when_used_as_spec(spec_invalid_seek)]
pub fn invalid_seek() -> (e: Error)
    ensures
        e == spec_invalid_seek(),
{
    Error::new(ErrorKind::InvalidInput, "invalid seek to a negative or overflowing position")
}

#[verifier::when_used_as_spec(spec_unsupported)]
pub fn unsupported() -> (e: Error)
    ensures
        e == spec_unsupported(),
{
    Error::new(ErrorKind::Unsupported, "unsupported seek to end of stream")
}

} // verus!
