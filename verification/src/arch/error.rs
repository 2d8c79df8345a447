//! Why an execution ends without success.
use crate::instructions::VmOpcode;
use vstd::prelude::*;

verus! {

#[derive(Clone, Copy, Debug, PartialEq, Eq, Structural)]
pub enum ExecutionError {
    /// The program failed at `pc`.
    Fail { pc: u32 },
    /// There is no instruction at `pc`.
    PcNotFound { pc: u32, step: u32, pc_base: u32, program_len: usize },
    /// `pc` lies outside the program.
    PcOutOfBounds { pc: u32, step: u32, pc_base: u32, program_len: usize },
    /// No executor handles the opcode.
    DisabledOperation { pc: u32, opcode: VmOpcode },
    /// The operands at this place make no instruction.
    InvalidInstruction(u32),
    /// The program did not end.
    DidNotTerminate,
    /// The program ended with an exit code other than success.
    FailedWithExitCode(u32),
    /// The count of retired instructions has no successor.
    InstretOverflow,
}

/// The error of a result, if it has one.
pub open spec fn error_of(r: Result<(), ExecutionError>) -> Option<ExecutionError> {
    match r {
        Ok(_) => None,
        Err(e) => Some(e),
    }
}

} // verus!
