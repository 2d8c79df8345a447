//! Execution without chips.
use crate::arch::error::ExecutionError;
use crate::arch::execution_mode::e1::E1Ctx;
use crate::arch::segment::VmSegmentState;
use crate::arch::vm::complex::VmChipComplex;
use crate::arch::vm::exe::VmExe;
use crate::arch::vm::exit::{check_termination, ExitCode};
use crate::arch::vm::streams::Streams;
use vstd::prelude::*;

verus! {

/// A part of a run that is proved on its own.
#[derive(Clone, Debug)]
pub struct Segment {
    /// The number of instructions that retire before it.
    pub instret_start: u64,
    /// The number of instructions in it.
    pub num_insns: u64,
    /// The heights of its traces, by AIR.
    pub trace_heights: Vec<u32>,
}

/// When metered execution starts another segment.
#[derive(Clone, Copy, Debug, PartialEq, Eq, Structural)]
pub struct MeterLimits {
    pub max_trace_height: Option<u32>,
    pub max_cells: Option<usize>,
    /// How many instructions to execute between two looks at the traces.
    pub segment_check_insns: Option<u64>,
}

/// How metered execution ended.
#[derive(Debug)]
pub struct MeteredOutcome {
    pub exit_code: Result<Option<u32>, ExecutionError>,
    pub segments: Vec<Segment>,
}

/// Executes one program without chips.
pub trait Interpreter<F, VC>: Sized {
    /// An interpreter of a program on the machine of a configuration.
    fn new(config: &VC, exe: VmExe<F>) -> Self;

    /// Executes the program.
    fn execute(&self, ctx: E1Ctx, inputs: Streams<F>) -> Result<
        VmSegmentState<F, E1Ctx>,
        ExecutionError,
    >;

    /// Executes the program and meters the traces of the chips.
    fn execute_e2<X>(
        &self,
        chip_complex: &VmChipComplex<F, X>,
        interactions: &[usize],
        limits: MeterLimits,
        inputs: Streams<F>,
    ) -> Result<MeteredOutcome, ExecutionError>;
}

impl MeteredOutcome {
    /// The segments, if the program ended with success.
    pub open spec fn spec_into_segments(&self) -> Result<Vec<Segment>, ExecutionError> {
        match self.exit_code {
            Err(e) => Err(e),
            Ok(None) => Err(ExecutionError::DidNotTerminate),
            Ok(Some(code)) => if code == ExitCode::Success.spec_code() {
                Ok(self.segments)
            } else {
                Err(ExecutionError::FailedWithExitCode(code))
            },
        }
    }

    /// The segments, if the program ended with success.
    pub fn into_segments(self) -> (r: Result<Vec<Segment>, ExecutionError>)
        ensures
            r == self.spec_into_segments(),
    {
        match check_termination(self.exit_code) {
            Ok(()) => Ok(self.segments),
            Err(e) => Err(e),
        }
    }
}

} // verus!
