//! How the program ends: the exit code an error leads to.

use vstd::prelude::*;

verus! {

#[verifier::external_type_specification]
pub struct ExIoErrorKind(std::io::ErrorKind);

/// Describes the result of the program after it has terminated.
#[derive(Debug, Clone, Copy, PartialEq, Eq, Structural)]
pub enum ExitCode {
    /// Program terminated without any errors.
    Success,
    /// Program terminated due to an unrecoverable error.
    Failure,
}

impl ExitCode {
    /// The number the process exits with.
    pub fn code(&self) -> (code: u8)
        ensures
            code == match *self {
                ExitCode::Success => 0u8,
                ExitCode::Failure => 1u8,
            },
    {
        match self {
            ExitCode::Success => 0,
            ExitCode::Failure => 1,
        }
    }
}

/// Whether an error of the given I/O kind (`None` where the error is not an I/O error) is a
/// broken pipe.
pub fn is_broken_pipe(kind: Option<std::io::ErrorKind>) -> (res: bool)
    ensures
        res == (kind == Some(std::io::ErrorKind::BrokenPipe)),
{
    match kind {
        Some(std::io::ErrorKind::BrokenPipe) => true,
        _ => false,
    }
}

/// Determines the exit code for an application error. The caller gives the kind of the error
/// where it is an I/O error, and `None` otherwise; it writes the error to standard error.
///
/// Errors caused by a broken pipe return [`ExitCode::Success`] to match conventional Unix
/// CLI behavior; every other error returns [`ExitCode::Failure`].
pub fn report(kind: Option<std::io::ErrorKind>) -> (code: ExitCode)
    ensures
        code == if kind == Some(std::io::ErrorKind::BrokenPipe) {
            ExitCode::Success
        } else {
            ExitCode::Failure
        },
{
    if is_broken_pipe(kind) {
        ExitCode::Success
    } else {
        ExitCode::Failure
    }
}

} // verus!
