//! What drives the execution of a segment.
use crate::arch::error::{error_of, ExecutionError};
use crate::arch::segment::{VmSegmentState, VmStateMut};
use crate::arch::vm::complex::{ConnectorState, VmChipComplex};
use crate::arch::vm::exit::DEFAULT_SUSPEND_EXIT_CODE;
use crate::arch::vm::streams::Streams;
use crate::instructions::Instruction;
use crate::system::memory::MemoryImage;
use rand::rngs::StdRng;
use vstd::prelude::*;

verus! {

/// What an instruction can read and change: the executors, the program counter, the memory of the
/// chips, the streams and the generator.
pub ghost struct Machine<F, X> {
    pub executors: X,
    pub pc: u32,
    pub memory: MemoryImage,
    pub streams: Streams<F>,
    pub rng: StdRng,
}

/// Executes the instructions of a machine.
pub trait InstructionExecutor<F>: Sized {
    /// The instruction may lead from `before` to `after`, with an error or without.
    spec fn executes(
        before: Machine<F, Self>,
        after: Machine<F, Self>,
        instruction: Instruction<F>,
        error: Option<ExecutionError>,
    ) -> bool;

    /// Executes an instruction on the memory of the chips.
    fn execute(
        &mut self,
        state: VmStateMut<'_, F, MemoryImage, ()>,
        instruction: &Instruction<F>,
    ) -> (r: Result<(), ExecutionError>)
        ensures
            Self::executes(
                (Machine {
                    executors: *old(self),
                    pc: *old(state.pc),
                    memory: *old(state.memory),
                    streams: *old(state.streams),
                    rng: *old(state.rng),
                }),
                (Machine {
                    executors: *final(self),
                    pc: *final(state.pc),
                    memory: *final(state.memory),
                    streams: *final(state.streams),
                    rng: *final(state.rng),
                }),
                *instruction,
                error_of(r),
            ),
    ;

    /// Taking note that the program asked to fail at `pc` may lead from `before` to `after`.
    spec fn notes_panic(pc: u32, backtrace: Option<u64>, before: Self, after: Self) -> bool;

    /// Takes note that the program asked to fail at `pc`. The backtrace is that of the instruction
    /// before, if it has one.
    fn on_debug_panic(&mut self, pc: u32, backtrace: Option<u64>)
        ensures
            Self::notes_panic(pc, backtrace, *old(self), *final(self)),
    ;
}

/// A machine without extensions executes no instruction.
#[derive(Clone, Copy, Debug, PartialEq, Eq, Structural)]
pub struct NoExecutors;

impl<F> InstructionExecutor<F> for NoExecutors {
    /// Every instruction is refused, and changes nothing.
    open spec fn executes(
        before: Machine<F, Self>,
        after: Machine<F, Self>,
        instruction: Instruction<F>,
        error: Option<ExecutionError>,
    ) -> bool {
        &&& after == before
        &&& error == Some(
            ExecutionError::DisabledOperation { pc: before.pc, opcode: instruction.opcode },
        )
    }

    fn execute(
        &mut self,
        state: VmStateMut<'_, F, MemoryImage, ()>,
        instruction: &Instruction<F>,
    ) -> (r: Result<(), ExecutionError>) {
        Err(ExecutionError::DisabledOperation { pc: *state.pc, opcode: instruction.opcode })
    }

    /// Nothing is kept.
    open spec fn notes_panic(pc: u32, backtrace: Option<u64>, before: Self, after: Self) -> bool {
        after == before
    }

    fn on_debug_panic(&mut self, _pc: u32, _backtrace: Option<u64>) {
    }
}

/// The state at the start of a segment.
pub open spec fn begin_state(pc: u32) -> ConnectorState {
    ConnectorState { pc, is_terminate: 0, exit_code: 0 }
}

/// The chips with the start of a segment recorded.
pub open spec fn begun<F, X>(chips: VmChipComplex<F, X>, pc: u32) -> VmChipComplex<F, X> {
    VmChipComplex { begin: Some(begin_state(pc)), ..chips }
}

/// The state at the end of a segment: the program ended with an exit code, or goes on in another
/// segment.
pub open spec fn end_state(pc: u32, exit_code: Option<u32>) -> ConnectorState {
    match exit_code {
        Some(code) => ConnectorState { pc, is_terminate: 1, exit_code: code },
        None => ConnectorState { pc, is_terminate: 0, exit_code: DEFAULT_SUSPEND_EXIT_CODE },
    }
}

/// Decides how a segment executes and when it stops.
pub trait ExecutionControl<F, X> {
    type Ctx;

    /// The segment is to go on in another one.
    spec fn suspends(
        &self,
        state: VmSegmentState<F, Self::Ctx>,
        complex: VmChipComplex<F, X>,
    ) -> bool;

    /// Whether to go on in another segment.
    fn should_suspend(
        &self,
        state: &VmSegmentState<F, Self::Ctx>,
        complex: &VmChipComplex<F, X>,
    ) -> (r: bool)
        ensures
            r == self.suspends(*state, *complex),
    ;

    /// Beginning a segment in a state may lead from chips to others.
    spec fn begins(
        &self,
        state: VmSegmentState<F, Self::Ctx>,
        before: VmChipComplex<F, X>,
        after: VmChipComplex<F, X>,
    ) -> bool;

    /// Begins a segment.
    fn on_start(&self, state: &VmSegmentState<F, Self::Ctx>, complex: &mut VmChipComplex<F, X>)
        ensures
            self.begins(*state, *old(complex), *final(complex)),
            final(complex).same_layout(old(complex)),
    ;

    /// Ending a segment in a state may lead from chips to others. The program ended with an exit
    /// code, or goes on.
    spec fn finishes(
        &self,
        state: VmSegmentState<F, Self::Ctx>,
        exit_code: Option<u32>,
        before: VmChipComplex<F, X>,
        after: VmChipComplex<F, X>,
    ) -> bool;

    /// Ends a segment of a program that goes on.
    fn on_suspend(&self, state: &VmSegmentState<F, Self::Ctx>, complex: &mut VmChipComplex<F, X>)
        ensures
            self.finishes(*state, None, *old(complex), *final(complex)),
            final(complex).same_layout(old(complex)),
    ;

    /// Ends a segment in which the program ended.
    fn on_terminate(
        &self,
        state: &VmSegmentState<F, Self::Ctx>,
        complex: &mut VmChipComplex<F, X>,
        exit_code: u32,
    )
        ensures
            self.finishes(*state, Some(exit_code), *old(complex), *final(complex)),
            final(complex).same_layout(old(complex)),
    ;

    /// Executing the instruction may lead from a state and chips to others, with an error or
    /// without.
    spec fn carries_out(
        &self,
        before: (VmSegmentState<F, Self::Ctx>, VmChipComplex<F, X>),
        after: (VmSegmentState<F, Self::Ctx>, VmChipComplex<F, X>),
        instruction: Instruction<F>,
        error: Option<ExecutionError>,
    ) -> bool;

    /// Executes an instruction. It does not change the count of retired instructions.
    fn execute_instruction(
        &self,
        state: &mut VmSegmentState<F, Self::Ctx>,
        instruction: &Instruction<F>,
        complex: &mut VmChipComplex<F, X>,
    ) -> (r: Result<(), ExecutionError>)
        ensures
            final(state).instret == old(state).instret,
            final(complex).same_layout(old(complex)),
            self.carries_out(
                (*old(state), *old(complex)),
                (*final(state), *final(complex)),
                *instruction,
                error_of(r),
            ),
    ;

    /// Taking note that the program asked to fail at `pc` may lead from chips to others.
    spec fn notes_panic(
        &self,
        pc: u32,
        backtrace: Option<u64>,
        before: VmChipComplex<F, X>,
        after: VmChipComplex<F, X>,
    ) -> bool;

    /// Takes note that the program asked to fail at `pc`. The backtrace is that of the instruction
    /// before, if it has one.
    fn on_debug_panic(&self, pc: u32, backtrace: Option<u64>, complex: &mut VmChipComplex<F, X>)
        ensures
            self.notes_panic(pc, backtrace, *old(complex), *final(complex)),
            *final(complex) == (VmChipComplex {
                executors: final(complex).executors,
                ..*old(complex)
            }),
    ;
}

/// The context of a segment whose trace is generated.
#[derive(Clone, Copy, Debug, PartialEq, Eq, Structural)]
pub struct TracegenCtx {
    /// The number of retired instructions at which the segment suspends.
    pub instret_end: Option<u64>,
}

impl TracegenCtx {
    pub fn new(instret_end: Option<u64>) -> (r: Self)
        ensures
            r.instret_end == instret_end,
    {
        TracegenCtx { instret_end }
    }
}

impl Default for TracegenCtx {
    fn default() -> (r: Self)
        ensures
            r.instret_end is None,
    {
        TracegenCtx { instret_end: None }
    }
}

/// Executes instructions on the chips, whose traces are then generated.
#[derive(Clone, Copy, Debug, PartialEq, Eq, Structural)]
pub struct TracegenExecutionControl;

/// What of a state and chips an instruction can read and change.
pub open spec fn machine<F, X>(
    state: VmSegmentState<F, TracegenCtx>,
    complex: VmChipComplex<F, X>,
) -> Machine<F, X> {
    Machine {
        executors: complex.executors,
        pc: state.pc,
        memory: complex.memory,
        streams: state.streams,
        rng: state.rng,
    }
}

impl<F, X: InstructionExecutor<F>> ExecutionControl<F, X> for TracegenExecutionControl {
    type Ctx = TracegenCtx;

    /// The count of retired instructions has reached the end, if there is one.
    open spec fn suspends(
        &self,
        state: VmSegmentState<F, TracegenCtx>,
        complex: VmChipComplex<F, X>,
    ) -> bool {
        state.ctx.instret_end matches Some(end) && state.instret >= end
    }

    fn should_suspend(
        &self,
        state: &VmSegmentState<F, TracegenCtx>,
        _complex: &VmChipComplex<F, X>,
    ) -> (r: bool) {
        match state.ctx.instret_end {
            Some(end) => state.instret >= end,
            None => false,
        }
    }

    /// The chips record where the segment begins.
    open spec fn begins(
        &self,
        state: VmSegmentState<F, TracegenCtx>,
        before: VmChipComplex<F, X>,
        after: VmChipComplex<F, X>,
    ) -> bool {
        after == begun(before, state.pc)
    }

    fn on_start(&self, state: &VmSegmentState<F, TracegenCtx>, complex: &mut VmChipComplex<F, X>) {
        complex.begin = Some(ConnectorState { pc: state.pc, is_terminate: 0, exit_code: 0 });
    }

    /// The chips record where the segment ends, and how.
    open spec fn finishes(
        &self,
        state: VmSegmentState<F, TracegenCtx>,
        exit_code: Option<u32>,
        before: VmChipComplex<F, X>,
        after: VmChipComplex<F, X>,
    ) -> bool {
        after == (VmChipComplex { end: Some(end_state(state.pc, exit_code)), ..before })
    }

    fn on_suspend(
        &self,
        state: &VmSegmentState<F, TracegenCtx>,
        complex: &mut VmChipComplex<F, X>,
    ) {
        complex.end =
        Some(
            ConnectorState {
                pc: state.pc,
                is_terminate: 0,
                exit_code: DEFAULT_SUSPEND_EXIT_CODE,
            },
        );
    }

    fn on_terminate(
        &self,
        state: &VmSegmentState<F, TracegenCtx>,
        complex: &mut VmChipComplex<F, X>,
        exit_code: u32,
    ) {
        complex.end = Some(ConnectorState { pc: state.pc, is_terminate: 1, exit_code });
    }

    /// The executors execute the instruction on the memory of the chips; the rest of the state
    /// and of the chips stays.
    open spec fn carries_out(
        &self,
        before: (VmSegmentState<F, TracegenCtx>, VmChipComplex<F, X>),
        after: (VmSegmentState<F, TracegenCtx>, VmChipComplex<F, X>),
        instruction: Instruction<F>,
        error: Option<ExecutionError>,
    ) -> bool {
        let (m, n) = (machine(before.0, before.1), machine(after.0, after.1));
        &&& X::executes(m, n, instruction, error)
        &&& after.0 == (VmSegmentState { pc: n.pc, streams: n.streams, rng: n.rng, ..before.0 })
        &&& after.1 == (VmChipComplex { executors: n.executors, memory: n.memory, ..before.1 })
    }

    fn execute_instruction(
        &self,
        state: &mut VmSegmentState<F, TracegenCtx>,
        instruction: &Instruction<F>,
        complex: &mut VmChipComplex<F, X>,
    ) -> (r: Result<(), ExecutionError>) {
        let mut unit = ();
        complex.executors.execute(
            VmStateMut {
                pc: &mut state.pc,
                memory: &mut complex.memory,
                streams: &mut state.streams,
                rng: &mut state.rng,
                ctx: &mut unit,
            },
            instruction,
        )
    }

    /// The executors take note; the rest of the chips stays.
    open spec fn notes_panic(
        &self,
        pc: u32,
        backtrace: Option<u64>,
        before: VmChipComplex<F, X>,
        after: VmChipComplex<F, X>,
    ) -> bool {
        &&& X::notes_panic(pc, backtrace, before.executors, after.executors)
        &&& after == (VmChipComplex { executors: after.executors, ..before })
    }

    fn on_debug_panic(&self, pc: u32, backtrace: Option<u64>, complex: &mut VmChipComplex<F, X>) {
        complex.executors.on_debug_panic(pc, backtrace);
    }
}

} // verus!
