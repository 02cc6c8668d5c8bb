//! Platform support: errors of unsupported operations and the timeout of a futex wait.
use vstd::prelude::*;

verus! {

/// The kinds of errors that the platform layer reports.
#[derive(Debug, Clone, Copy, PartialEq, Eq, Structural)]
pub enum ErrorKind {
    Unsupported,
}

/// An error with a fixed message.
#[derive(Debug)]
pub struct Error {
    pub kind: ErrorKind,
    pub message: String,
}

/// The message of an operation that the platform does not offer.
pub const UNSUPPORTED_MESSAGE: &'static str = "operation not supported on this platform";

/// The result of an operation that the platform does not offer: always an error.
pub fn unsupported<T>() -> (r: Result<T, Error>)
    ensures
        r matches Err(error) && error.kind == ErrorKind::Unsupported && error.message@
            == UNSUPPORTED_MESSAGE@,
{
    Err(unsupported_err())
}

/// The error of an operation that the platform does not offer.
pub fn unsupported_err() -> (error: Error)
    ensures
        error.kind == ErrorKind::Unsupported,
        error.message@ == UNSUPPORTED_MESSAGE@,
{
    Error { kind: ErrorKind::Unsupported, message: UNSUPPORTED_MESSAGE.to_string() }
}

/// The timeout that a futex wait hands to the runtime: the nanoseconds of the timeout where there
/// is one that fits, and -1, which waits without limit, everywhere else.
pub fn futex_timeout_nanos(timeout: Option<u128>) -> (r: i64)
    ensures
        r == (match timeout {
            Some(nanos) => if nanos <= i64::MAX {
                nanos as int
            } else {
                -1
            },
            None => -1,
        }),
{
    match timeout {
        Some(nanos) => if nanos <= i64::MAX as u128 {
            nanos as i64
        } else {
            -1
        },
        None => -1,
    }
}

} // verus!
