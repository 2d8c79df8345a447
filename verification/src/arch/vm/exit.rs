//! Exit codes.
use crate::arch::error::ExecutionError;
use vstd::prelude::*;

verus! {

/// How a program ended.
#[derive(Clone, Copy, Debug, PartialEq, Eq, Structural)]
pub enum ExitCode {
    Success,
    Error,
    /// The program goes on in another segment.
    Suspended,
}

impl ExitCode {
    pub open spec fn spec_code(self) -> int {
        match self {
            ExitCode::Success => 0,
            ExitCode::Error => 1,
            ExitCode::Suspended => -1,
        }
    }

    /// The number of the exit code.
    pub fn code(self) -> (r: i32)
        ensures
            r == self.spec_code(),
    {
        match self {
            ExitCode::Success => 0,
            ExitCode::Error => 1,
            ExitCode::Suspended => -1,
        }
    }
}

/// The exit code of success.
pub const SUCCESS_EXIT_CODE: u32 = 0;

/// The exit code of a segment that suspended.
pub const DEFAULT_SUSPEND_EXIT_CODE: u32 = 42;

/// Fails unless the exit code is that of success.
pub fn check_exit_code(exit_code: u32) -> (r: Result<(), ExecutionError>)
    ensures
        r == (if exit_code == ExitCode::Success.spec_code() {
            Ok::<(), ExecutionError>(())
        } else {
            Err(ExecutionError::FailedWithExitCode(exit_code))
        }),
{
    if exit_code != SUCCESS_EXIT_CODE {
        return Err(ExecutionError::FailedWithExitCode(exit_code));
    }
    Ok(())
}

/// Fails unless the program ended with success.
pub fn check_termination(exit_code: Result<Option<u32>, ExecutionError>) -> (r: Result<
    (),
    ExecutionError,
>)
    ensures
        r == (match exit_code {
            Err(e) => Err::<(), ExecutionError>(e),
            Ok(None) => Err(ExecutionError::DidNotTerminate),
            Ok(Some(code)) => if code == ExitCode::Success.spec_code() {
                Ok(())
            } else {
                Err(ExecutionError::FailedWithExitCode(code))
            },
        }),
{
    match exit_code {
        Err(e) => Err(e),
        Ok(Some(code)) => check_exit_code(code),
        Ok(None) => Err(ExecutionError::DidNotTerminate),
    }
}

} // verus!
