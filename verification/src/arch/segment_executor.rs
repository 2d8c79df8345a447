//! The execution of a segment.
use crate::arch::error::{error_of, ExecutionError};
use crate::arch::segment::VmSegmentState;
use crate::arch::vm::complex::{VmChipComplex, VmComplexTraceHeights};
use crate::arch::vm::config::SystemConfig;
use crate::arch::vm::control::{
    begun, end_state, ExecutionControl, InstructionExecutor, TracegenCtx, TracegenExecutionControl,
};
use crate::arch::vm::run::GenerationError;
use crate::field::PrimeField32;
use crate::instructions::{Instruction, SysPhantom, PHANTOM_OPCODE, TERMINATE_OPCODE};
use openvm_stark_backend::keygen::types::LinearConstraint;
use vstd::prelude::*;

verus! {

/// Executes a segment on chips.
pub struct VmSegmentExecutor<F, X, C> {
    pub chip_complex: VmChipComplex<F, X>,
    /// Decides how instructions execute and when the segment stops.
    pub ctrl: C,
    pub trace_height_constraints: Vec<LinearConstraint>,
}

/// What to do with an instruction.
#[derive(Clone, Copy, Debug, PartialEq, Eq, Structural)]
pub enum Decision {
    /// The program ends with an exit code.
    Terminate(u32),
    /// The program asked to fail.
    Fail,
    /// The instruction is executed.
    Execute,
}

/// The low 16 bits of the operand `c` name the phantom instruction.
pub open spec fn phantom_of(c: int) -> Option<SysPhantom> {
    SysPhantom::spec_from_repr((c % 0x1_0000) as u16)
}

/// What to do with an instruction.
pub open spec fn spec_decide<F: PrimeField32>(instruction: Instruction<F>) -> Decision {
    if instruction.opcode.index == TERMINATE_OPCODE {
        Decision::Terminate(instruction.c.val() as u32)
    } else if instruction.opcode.index == PHANTOM_OPCODE && phantom_of(instruction.c.val()) == Some(
        SysPhantom::DebugPanic,
    ) {
        Decision::Fail
    } else {
        Decision::Execute
    }
}

/// What to do with an instruction.
pub fn decide<F: PrimeField32>(instruction: &Instruction<F>) -> (r: Decision)
    ensures
        r == spec_decide(*instruction),
{
    let c = instruction.c.as_canonical_u32();
    if instruction.opcode.as_usize() == TERMINATE_OPCODE {
        return Decision::Terminate(c);
    }
    if instruction.opcode.as_usize() == PHANTOM_OPCODE {
        let discriminant: u16 = (c % 0x1_0000) as u16;
        if let Some(phantom) = SysPhantom::from_repr(discriminant) {
            if phantom == SysPhantom::DebugPanic {
                return Decision::Fail;
            }
        }
    }
    Decision::Execute
}

/// The state after the program ended.
pub open spec fn ended<F, Ctx>(state: VmSegmentState<F, Ctx>, exit_code: u32) -> VmSegmentState<
    F,
    Ctx,
> {
    VmSegmentState { exit_code: Ok(Some(exit_code)), ..state }
}

/// The exit code with which the program ended, if it did.
pub open spec fn exit_code_of<F, Ctx>(state: VmSegmentState<F, Ctx>) -> Option<u32> {
    match state.exit_code {
        Ok(code) => code,
        Err(_) => None,
    }
}

/// A state of a segment and the chips on which it executes.
pub type Point<F, X, Ctx> = (VmSegmentState<F, Ctx>, VmChipComplex<F, X>);

/// The segment stops before the next instruction: the program ended, or goes on in another
/// segment.
pub open spec fn halts<F, X, C: ExecutionControl<F, X>>(ctrl: C, a: Point<F, X, C::Ctx>) -> bool {
    ||| exit_code_of(a.0) is Some
    ||| a.1.config.continuation_enabled && ctrl.suspends(a.0, a.1)
}

/// The control may carry the instruction out, from `a` to `b`, with an error or without.
pub open spec fn carried_out<F, X, C: ExecutionControl<F, X>>(
    ctrl: C,
    a: Point<F, X, C::Ctx>,
    b: Point<F, X, C::Ctx>,
    instruction: Instruction<F>,
    error: Option<ExecutionError>,
) -> bool {
    &&& ctrl.carries_out(a, b, instruction, error)
    &&& b.0.instret == a.0.instret
    &&& b.1.same_layout(&a.1)
}

/// One instruction of the program leads from `a` to `b`, and counts: the program ends, or the
/// control carries the instruction out.
pub open spec fn leads_to<F: PrimeField32, X, C: ExecutionControl<F, X>>(
    ctrl: C,
    a: Point<F, X, C::Ctx>,
    b: Point<F, X, C::Ctx>,
) -> bool {
    &&& b.0.instret == a.0.instret + 1
    &&& match a.1.program.spec_get_instruction(a.0.pc) {
        Err(_) => false,
        Ok(instruction) => match spec_decide(instruction) {
            Decision::Terminate(code) => b == (
                VmSegmentState { instret: b.0.instret, ..ended(a.0, code) },
                a.1,
            ),
            Decision::Fail => false,
            Decision::Execute => carried_out(
                ctrl,
                a,
                (VmSegmentState { instret: a.0.instret, ..b.0 }, b.1),
                instruction,
                None,
            ),
        },
    }
}

/// The instruction at `a` fails with an error, and leaves `b`. There is none, or it asks to fail,
/// or the control fails to carry it out; or the count of retired instructions has no successor.
/// The backtrace is that of the instruction before.
pub open spec fn fails_with<F: PrimeField32, X, C: ExecutionControl<F, X>>(
    ctrl: C,
    a: Point<F, X, C::Ctx>,
    b: Point<F, X, C::Ctx>,
    backtrace: Option<u64>,
    e: ExecutionError,
) -> bool {
    match a.1.program.spec_get_instruction(a.0.pc) {
        Err(error) => e == error && b == a,
        Ok(instruction) => match spec_decide(instruction) {
            Decision::Terminate(code) => {
                &&& e == ExecutionError::InstretOverflow
                &&& a.0.instret == u64::MAX
                &&& b == (ended(a.0, code), a.1)
            },
            Decision::Fail => {
                &&& e == (ExecutionError::Fail { pc: a.0.pc })
                &&& b.0 == a.0
                &&& ctrl.notes_panic(a.0.pc, backtrace, a.1, b.1)
                &&& b.1 == (VmChipComplex { executors: b.1.executors, ..a.1 })
            },
            Decision::Execute => {
                ||| carried_out(ctrl, a, b, instruction, Some(e))
                ||| e == ExecutionError::InstretOverflow && a.0.instret == u64::MAX && carried_out(
                    ctrl,
                    a,
                    b,
                    instruction,
                    None,
                )
            },
        },
    }
}

/// The `k`-th point of a run does not stop the segment, and leads to the next.
pub open spec fn steps_at<F: PrimeField32, X, C: ExecutionControl<F, X>>(
    ctrl: C,
    run: Seq<Point<F, X, C::Ctx>>,
    k: int,
) -> bool {
    &&& !halts(ctrl, run[k])
    &&& leads_to(ctrl, run[k], run[k + 1])
}

/// Each point but the last leads to the next, and none but the last stops the segment.
pub open spec fn is_run<F: PrimeField32, X, C: ExecutionControl<F, X>>(
    ctrl: C,
    run: Seq<Point<F, X, C::Ctx>>,
) -> bool {
    &&& run.len() > 0
    &&& forall|k: int| 0 <= k < run.len() - 1 ==> #[trigger] steps_at(ctrl, run, k)
}

/// The backtrace of the last instruction of a run, if it has one.
pub open spec fn last_trace<F: Copy, X, Ctx>(run: Seq<Point<F, X, Ctx>>) -> Option<u64> {
    if run.len() > 1 {
        let a = run[run.len() - 2];
        a.1.program.spec_trace(a.0.pc)
    } else {
        None
    }
}

/// A run ends in `end`: there the segment stops, or the next instruction fails and leaves it.
pub open spec fn run_ends<F: PrimeField32, X, C: ExecutionControl<F, X>>(
    ctrl: C,
    run: Seq<Point<F, X, C::Ctx>>,
    end: Point<F, X, C::Ctx>,
    error: Option<ExecutionError>,
) -> bool {
    match error {
        None => run.last() == end && halts(ctrl, end),
        Some(e) => !halts(ctrl, run.last()) && fails_with(
            ctrl,
            run.last(),
            end,
            last_trace(run),
            e,
        ),
    }
}

/// The instructions of a program lead from `start` to `end`, with an error or without.
#[verifier::opaque]
pub open spec fn executes<F: PrimeField32, X, C: ExecutionControl<F, X>>(
    ctrl: C,
    start: Point<F, X, C::Ctx>,
    end: Point<F, X, C::Ctx>,
    error: Option<ExecutionError>,
) -> bool {
    exists|run: Seq<Point<F, X, C::Ctx>>| #[trigger]
        is_run(ctrl, run) && run[0] == start && run_ends(ctrl, run, end, error)
}

/// A segment executes from the state `first` on `chips` to the state `last` on `complex`, with an
/// error or without. The control begins the segment before the first instruction, and ends it
/// after the last, unless there was an error.
pub open spec fn segment_executes<F: PrimeField32, X, C: ExecutionControl<F, X>>(
    ctrl: C,
    chips: VmChipComplex<F, X>,
    first: VmSegmentState<F, C::Ctx>,
    complex: VmChipComplex<F, X>,
    last: VmSegmentState<F, C::Ctx>,
    error: Option<ExecutionError>,
) -> bool {
    exists|a: VmChipComplex<F, X>, z: VmChipComplex<F, X>|
        {
            &&& #[trigger] ctrl.begins(first, chips, a)
            &&& a.same_layout(&chips)
            &&& #[trigger] executes(ctrl, (first, a), (last, z), error)
            &&& match error {
                None => ctrl.finishes(last, exit_code_of(last), z, complex),
                Some(_) => complex == z,
            }
        }
}

/// One more instruction extends a run.
proof fn lemma_run_push<F: PrimeField32, X, C: ExecutionControl<F, X>>(
    ctrl: C,
    run: Seq<Point<F, X, C::Ctx>>,
    next: Point<F, X, C::Ctx>,
)
    requires
        is_run(ctrl, run),
        !halts(ctrl, run.last()),
        leads_to(ctrl, run.last(), next),
    ensures
        is_run(ctrl, run.push(next)),
{
    let longer = run.push(next);
    assert forall|k: int| 0 <= k < longer.len() - 1 implies #[trigger] steps_at(ctrl, longer, k) by {
        if k < run.len() - 1 {
            assert(steps_at(ctrl, run, k));
            assert(longer[k] == run[k] && longer[k + 1] == run[k + 1]);
        }
    }
}

impl<F: PrimeField32, X, C: ExecutionControl<F, X>> VmSegmentExecutor<F, X, C> {
    /// The executors differ at most in the memory of the chips, in the ends of the segment and in
    /// what executes the instructions.
    pub open spec fn same_layout(&self, other: &Self) -> bool {
        &&& self.chip_complex.same_layout(&other.chip_complex)
        &&& self.ctrl == other.ctrl
        &&& self.trace_height_constraints == other.trace_height_constraints
    }

    pub fn new(
        chip_complex: VmChipComplex<F, X>,
        trace_height_constraints: Vec<LinearConstraint>,
        ctrl: C,
    ) -> (r: Self)
        ensures
            r.chip_complex == chip_complex,
            r.trace_height_constraints == trace_height_constraints,
            r.ctrl == ctrl,
    {
        VmSegmentExecutor { chip_complex, ctrl, trace_height_constraints }
    }

    pub fn system_config(&self) -> (r: &SystemConfig)
        ensures
            *r == self.chip_complex.config,
    {
        &self.chip_complex.config
    }

    /// Sets the trace heights that take the place of those that execution gives.
    pub fn set_override_trace_heights(&mut self, overridden_heights: VmComplexTraceHeights)
        ensures
            *final(self) == (VmSegmentExecutor {
                chip_complex: VmChipComplex {
                    overridden_system: Some(overridden_heights.system),
                    overridden_inventory: Some(overridden_heights.inventory),
                    ..old(self).chip_complex
                },
                ..*old(self)
            }),
    {
        self.chip_complex.overridden_system = Some(overridden_heights.system);
        self.chip_complex.overridden_inventory = Some(overridden_heights.inventory);
    }

    /// Whether to go on in another segment.
    pub fn should_suspend(&self, state: &VmSegmentState<F, C::Ctx>) -> (r: bool)
        ensures
            r == (self.chip_complex.config.continuation_enabled && self.ctrl.suspends(
                *state,
                self.chip_complex,
            )),
    {
        if !self.system_config().continuation_enabled {
            return false;
        }
        self.ctrl.should_suspend(state, &self.chip_complex)
    }

    /// Executes the instruction at the program counter. The backtrace of the instruction before
    /// gives way to that of this one, or is handed on where the program asks to fail.
    pub fn execute_instruction(
        &mut self,
        state: &mut VmSegmentState<F, C::Ctx>,
        prev_backtrace: &mut Option<u64>,
    ) -> (r: Result<(), ExecutionError>)
        requires
            old(self).chip_complex.program.step > 0,
        ensures
            final(self).same_layout(old(self)),
            final(state).instret == old(state).instret,
            match old(self).chip_complex.program.spec_get_instruction(old(state).pc) {
                Err(e) => {
                    &&& r == Err::<(), ExecutionError>(e)
                    &&& *final(state) == *old(state)
                    &&& *final(self) == *old(self)
                    &&& *final(prev_backtrace) == *old(prev_backtrace)
                },
                Ok(instruction) => match spec_decide(instruction) {
                    Decision::Terminate(code) => {
                        &&& r is Ok
                        &&& *final(state) == ended(*old(state), code)
                        &&& *final(self) == *old(self)
                        &&& *final(prev_backtrace) == *old(prev_backtrace)
                    },
                    Decision::Fail => {
                        &&& r == Err::<(), ExecutionError>(
                            ExecutionError::Fail { pc: old(state).pc },
                        )
                        &&& *final(state) == *old(state)
                        &&& old(self).ctrl.notes_panic(
                            old(state).pc,
                            *old(prev_backtrace),
                            old(self).chip_complex,
                            final(self).chip_complex,
                        )
                        &&& final(self).chip_complex == (VmChipComplex {
                            executors: final(self).chip_complex.executors,
                            ..old(self).chip_complex
                        })
                        &&& *final(prev_backtrace) is None
                    },
                    Decision::Execute => {
                        &&& old(self).ctrl.carries_out(
                            (*old(state), old(self).chip_complex),
                            (*final(state), final(self).chip_complex),
                            instruction,
                            error_of(r),
                        )
                        &&& *final(prev_backtrace) == old(self).chip_complex.program.spec_trace(
                            old(state).pc,
                        )
                    },
                },
            },
    {
        let pc = state.pc;
        let instruction = match self.chip_complex.program.get_instruction(pc) {
            Ok(instruction) => instruction,
            Err(e) => {
                return Err(e);
            },
        };
        match decide(&instruction) {
            Decision::Terminate(code) => {
                state.exit_code = Ok(Some(code));
                Ok(())
            },
            Decision::Fail => {
                let backtrace = prev_backtrace.take();
                self.ctrl.on_debug_panic(pc, backtrace, &mut self.chip_complex);
                Err(ExecutionError::Fail { pc })
            },
            Decision::Execute => {
                *prev_backtrace = self.chip_complex.program.trace(pc);
                self.ctrl.execute_instruction(state, &instruction, &mut self.chip_complex)
            },
        }
    }

    /// Executes instructions until the program ends or the segment suspends. The control begins
    /// and ends the segment.
    pub fn execute_from_state(&mut self, state: &mut VmSegmentState<F, C::Ctx>) -> (r: Result<
        (),
        ExecutionError,
    >)
        requires
            old(self).chip_complex.program.step > 0,
        ensures
            final(self).same_layout(old(self)),
            final(state).instret >= old(state).instret,
            segment_executes(
                old(self).ctrl,
                old(self).chip_complex,
                *old(state),
                final(self).chip_complex,
                *final(state),
                error_of(r),
            ),
    {
        let mut prev_backtrace: Option<u64> = None;
        self.ctrl.on_start(state, &mut self.chip_complex);
        let ghost started = *self;
        let ghost first = *state;
        let ghost mut run: Seq<Point<F, X, C::Ctx>> = seq![(*state, self.chip_complex)];
        loop
            invariant
                run.len() > 0,
                run[0] == (first, started.chip_complex),
                run.last() == (*state, self.chip_complex),
                is_run(started.ctrl, run),
                exit_code_of(*state) is None ==> prev_backtrace == last_trace(run),
                started.chip_complex.program.step > 0,
                started.same_layout(old(self)),
                started.ctrl.begins(*old(state), old(self).chip_complex, started.chip_complex),
                first == *old(state),
                self.same_layout(&started),
                state.instret >= first.instret,
            decreases u64::MAX - state.instret,
        {
            reveal(executes);
            let ghost before = (*state, self.chip_complex);
            if let Ok(Some(exit_code)) = state.exit_code {
                self.ctrl.on_terminate(state, &mut self.chip_complex, exit_code);
                assert(run_ends(started.ctrl, run, before, None));
                assert(executes(started.ctrl, (first, started.chip_complex), before, None));
                return Ok(());
            }
            if self.should_suspend(state) {
                self.ctrl.on_suspend(state, &mut self.chip_complex);
                assert(run_ends(started.ctrl, run, before, None));
                assert(executes(started.ctrl, (first, started.chip_complex), before, None));
                return Ok(());
            }
            let executed = self.execute_instruction(state, &mut prev_backtrace);
            let ghost after = (*state, self.chip_complex);
            if let Err(e) = executed {
                assert(run_ends(started.ctrl, run, after, Some(e)));
                assert(executes(started.ctrl, (first, started.chip_complex), after, Some(e)));
                return Err(e);
            }
            if state.instret == u64::MAX {
                let ghost e = ExecutionError::InstretOverflow;
                assert(run_ends(started.ctrl, run, after, Some(e)));
                assert(executes(started.ctrl, (first, started.chip_complex), after, Some(e)));
                return Err(ExecutionError::InstretOverflow);
            }
            state.instret = state.instret + 1;
            proof {
                let next = (*state, self.chip_complex);
                assert(after.0 == (VmSegmentState { instret: before.0.instret, ..next.0 }));
                assert(leads_to(started.ctrl, before, next));
                lemma_run_push(started.ctrl, run, next);
                run = run.push(next);
            }
        }
    }
}

impl<F, X, C> VmSegmentExecutor<F, X, C> {
    /// Makes the input of the proof of the segment: `generate` is given the chips, the commitment
    /// to the program if there is one, and the constraints on trace heights.
    pub fn generate_proof_input<
        PI,
        P,
        G: Fn(VmChipComplex<F, X>, Option<P>, &Vec<LinearConstraint>) -> Result<PI, GenerationError>,
    >(self, cached_program: Option<P>, generate: G) -> (r: Result<PI, GenerationError>)
        requires
            call_requires(
                generate,
                (self.chip_complex, cached_program, &self.trace_height_constraints),
            ),
        ensures
            call_ensures(
                generate,
                (self.chip_complex, cached_program, &self.trace_height_constraints),
                r,
            ),
    {
        let constraints = self.trace_height_constraints;
        generate(self.chip_complex, cached_program, &constraints)
    }
}

/// What generates traces leaves the context and the ends of a segment as they are while the
/// instructions execute, and with continuations retires no more of them than planned.
proof fn lemma_tracegen_run<F: PrimeField32, X: InstructionExecutor<F>>(
    ctrl: TracegenExecutionControl,
    run: Seq<Point<F, X, TracegenCtx>>,
    k: int,
)
    requires
        is_run(ctrl, run),
        0 <= k < run.len(),
    ensures
        run[k].0.ctx == run[0].0.ctx,
        run[k].1.begin == run[0].1.begin,
        run[k].1.end == run[0].1.end,
        run[k].1.config == run[0].1.config,
        run[k].0.instret >= run[0].0.instret,
        run[0].1.config.continuation_enabled ==> match run[0].0.ctx.instret_end {
            Some(end) => run[0].0.instret <= end ==> run[k].0.instret <= end,
            None => true,
        },
    decreases k,
{
    if k > 0 {
        lemma_tracegen_run(ctrl, run, k - 1);
        assert(steps_at(ctrl, run, k - 1));
    }
}

/// A segment whose trace is generated records where it begins, and where it ends if it does. With
/// continuations it stops no later than planned, and unless the program ended no earlier.
pub proof fn law_tracegen_segment<F: PrimeField32, X: InstructionExecutor<F>>(
    ctrl: TracegenExecutionControl,
    chips: VmChipComplex<F, X>,
    first: VmSegmentState<F, TracegenCtx>,
    complex: VmChipComplex<F, X>,
    last: VmSegmentState<F, TracegenCtx>,
    error: Option<ExecutionError>,
)
    requires
        segment_executes(ctrl, chips, first, complex, last, error),
    ensures
        executes(
            ctrl,
            (first, begun(chips, first.pc)),
            (last, VmChipComplex { end: chips.end, ..complex }),
            error,
        ),
        complex.begin == begun(chips, first.pc).begin,
        complex.end == (match error {
            None => Some(end_state(last.pc, exit_code_of(last))),
            Some(_) => chips.end,
        }),
        last.ctx == first.ctx,
        last.instret >= first.instret,
        chips.config.continuation_enabled ==> match first.ctx.instret_end {
            Some(end) => first.instret <= end ==> last.instret <= end,
            None => true,
        },
        error is None && exit_code_of(last) is None ==> {
            &&& chips.config.continuation_enabled
            &&& first.ctx.instret_end matches Some(end) && last.instret >= end
        },
{
    reveal(executes);
    let (a, z) = choose|a: VmChipComplex<F, X>, z: VmChipComplex<F, X>|
        {
            &&& #[trigger] ctrl.begins(first, chips, a)
            &&& a.same_layout(&chips)
            &&& #[trigger] executes(ctrl, (first, a), (last, z), error)
            &&& match error {
                None => ctrl.finishes(last, exit_code_of(last), z, complex),
                Some(_) => complex == z,
            }
        };
    let run = choose|run: Seq<Point<F, X, TracegenCtx>>| #[trigger]
        is_run(ctrl, run) && run[0] == (first, a) && run_ends(ctrl, run, (last, z), error);
    lemma_tracegen_run(ctrl, run, run.len() - 1);
    assert(z == (VmChipComplex { end: chips.end, ..complex }));
}

/// A segment that is to stop before its first instruction executes none.
pub proof fn law_stopped_segment_stays<F: PrimeField32, X, C: ExecutionControl<F, X>>(
    ctrl: C,
    start: Point<F, X, C::Ctx>,
    end: Point<F, X, C::Ctx>,
    error: Option<ExecutionError>,
)
    requires
        executes(ctrl, start, end, error),
        halts(ctrl, start),
    ensures
        error is None,
        end == start,
{
    reveal(executes);
    let run = choose|run: Seq<Point<F, X, C::Ctx>>| #[trigger]
        is_run(ctrl, run) && run[0] == start && run_ends(ctrl, run, end, error);
    if run.len() > 1 {
        assert(steps_at(ctrl, run, 0));
    }
}

/// A segment that executes without an error stops where the program ended or, with continuations,
/// where the control suspends it, and nowhere before.
pub proof fn law_stops_where_told<F: PrimeField32, X, C: ExecutionControl<F, X>>(
    ctrl: C,
    start: Point<F, X, C::Ctx>,
    end: Point<F, X, C::Ctx>,
)
    requires
        executes(ctrl, start, end, None),
    ensures
        halts(ctrl, end),
        exists|run: Seq<Point<F, X, C::Ctx>>| #[trigger]
            is_run(ctrl, run) && run[0] == start && run.last() == end && forall|k: int|
                0 <= k < run.len() - 1 ==> !halts(ctrl, #[trigger] run[k]),
{
    reveal(executes);
    let run = choose|run: Seq<Point<F, X, C::Ctx>>| #[trigger]
        is_run(ctrl, run) && run[0] == start && run_ends(ctrl, run, end, None);
    assert forall|k: int| 0 <= k < run.len() - 1 implies !halts(ctrl, #[trigger] run[k]) by {
        assert(steps_at(ctrl, run, k));
    }
}

/// A program whose next instruction ends it does so: whatever executes the instructions, the
/// segment stops with the exit code of the instruction and one more instruction retired, and the
/// chips stay as they were.
pub proof fn law_terminate_ends<F: PrimeField32, X, C: ExecutionControl<F, X>>(
    ctrl: C,
    start: Point<F, X, C::Ctx>,
    end: Point<F, X, C::Ctx>,
    error: Option<ExecutionError>,
    instruction: Instruction<F>,
)
    requires
        executes(ctrl, start, end, error),
        !halts(ctrl, start),
        start.0.instret < u64::MAX,
        start.1.program.spec_get_instruction(start.0.pc) == Ok::<Instruction<F>, ExecutionError>(
            instruction,
        ),
        instruction.opcode.index == TERMINATE_OPCODE,
    ensures
        error is None,
        end == (
            VmSegmentState {
                instret: (start.0.instret + 1) as u64,
                ..ended(start.0, instruction.c.val() as u32)
            },
            start.1,
        ),
{
    reveal(executes);
    let run = choose|run: Seq<Point<F, X, C::Ctx>>| #[trigger]
        is_run(ctrl, run) && run[0] == start && run_ends(ctrl, run, end, error);
    if run.len() > 1 {
        assert(steps_at(ctrl, run, 0));
        assert(halts(ctrl, run[1]));
        if run.len() > 2 {
            assert(steps_at(ctrl, run, 1));
        }
    }
}

/// A program that asks to fail does so with the program counter of the instruction, and its state
/// stays as it was.
pub proof fn law_debug_panic_fails<F: PrimeField32, X, C: ExecutionControl<F, X>>(
    ctrl: C,
    start: Point<F, X, C::Ctx>,
    end: Point<F, X, C::Ctx>,
    error: Option<ExecutionError>,
    instruction: Instruction<F>,
)
    requires
        executes(ctrl, start, end, error),
        !halts(ctrl, start),
        start.1.program.spec_get_instruction(start.0.pc) == Ok::<Instruction<F>, ExecutionError>(
            instruction,
        ),
        spec_decide(instruction) == Decision::Fail,
    ensures
        error == Some(ExecutionError::Fail { pc: start.0.pc }),
        end.0 == start.0,
        end.1.memory == start.1.memory,
{
    reveal(executes);
    let run = choose|run: Seq<Point<F, X, C::Ctx>>| #[trigger]
        is_run(ctrl, run) && run[0] == start && run_ends(ctrl, run, end, error);
    if run.len() > 1 {
        assert(steps_at(ctrl, run, 0));
    }
}

/// Every instruction of a run counts once: its `k`-th point has `k` more retired.
pub proof fn law_instret_counts<F: PrimeField32, X, C: ExecutionControl<F, X>>(
    ctrl: C,
    run: Seq<Point<F, X, C::Ctx>>,
    k: int,
)
    requires
        is_run(ctrl, run),
        0 <= k < run.len(),
    ensures
        run[k].0.instret == run[0].0.instret + k,
    decreases k,
{
    if k > 0 {
        law_instret_counts(ctrl, run, k - 1);
        assert(steps_at(ctrl, run, k - 1));
    }
}

/// The count grows by the instructions that were run, the end of the program among them; an
/// instruction that fails is not counted.
pub proof fn law_count_is_of_run<F: PrimeField32, X, C: ExecutionControl<F, X>>(
    ctrl: C,
    start: Point<F, X, C::Ctx>,
    end: Point<F, X, C::Ctx>,
    error: Option<ExecutionError>,
)
    requires
        executes(ctrl, start, end, error),
    ensures
        exists|run: Seq<Point<F, X, C::Ctx>>| #[trigger]
            is_run(ctrl, run) && run[0] == start && run_ends(ctrl, run, end, error)
                && end.0.instret == start.0.instret + run.len() - 1,
{
    reveal(executes);
    let run = choose|run: Seq<Point<F, X, C::Ctx>>| #[trigger]
        is_run(ctrl, run) && run[0] == start && run_ends(ctrl, run, end, error);
    law_instret_counts(ctrl, run, run.len() - 1);
    assert(end.0.instret == run.last().0.instret);
}

/// Without continuations a segment stops only at the end of the program.
pub proof fn law_single_segment_terminates<F: PrimeField32, X, C: ExecutionControl<F, X>>(
    ctrl: C,
    a: Point<F, X, C::Ctx>,
)
    requires
        halts(ctrl, a),
        !a.1.config.continuation_enabled,
    ensures
        exit_code_of(a.0) is Some,
{
}

} // verus!
