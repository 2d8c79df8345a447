//! What the instructions of a segment do, one after the other.
use crate::arch::error::{error_of, ExecutionError};
use crate::arch::segment::VmSegmentState;
use crate::arch::segment_executor::{
    decide, executes, halts, is_run, run_ends, steps_at, Decision, Point, VmSegmentExecutor,
};
use crate::arch::vm::complex::{VmChipComplex, VmComplexTraceHeights};
use crate::arch::vm::config::SystemConfig;
use crate::arch::vm::control::{
    ExecutionControl, InstructionExecutor, Machine, NoExecutors, TracegenCtx,
    TracegenExecutionControl,
};
use crate::arch::vm::exe_laws::{in_step, lemma_in_step, placed_at, stands_at};
use crate::arch::vm::run::GenerationError;
use crate::field::PrimeField32;
use crate::instructions::Instruction;
use openvm_stark_backend::keygen::types::LinearConstraint;
use vstd::prelude::*;

verus! {

/// The instruction ends the program: it has opcode 0.
pub open spec fn terminates<F>(instruction: Instruction<F>) -> bool {
    instruction.opcode.index == 0
}

/// The instruction asks to fail: it has opcode 1, and its operand `c` is one in its low 16 bits.
pub open spec fn asks_to_fail<F: PrimeField32>(instruction: Instruction<F>) -> bool {
    instruction.opcode.index == 1 && instruction.c.val() % 0x1_0000 == 1
}

/// An instruction ends the program with its operand `c` as exit code, or asks to fail, or is
/// executed.
pub proof fn law_decide<F: PrimeField32>(instruction: Instruction<F>, r: Decision)
    requires
        call_ensures(decide::<F>, (&instruction,), r),
    ensures
        terminates(instruction) ==> (r matches Decision::Terminate(code) && code
            == instruction.c.val()),
        asks_to_fail(instruction) ==> r == Decision::Fail,
        !terminates(instruction) && !asks_to_fail(instruction) ==> r == Decision::Execute,
{
    F::order_is_prime();
    instruction.c.val_is_canonical();
}

/// What the instruction at a program counter is decides what it does.
proof fn lemma_stands<F: PrimeField32>(
    program: crate::arch::vm::exe::Program<F>,
    pc: u32,
    instruction: Instruction<F>,
)
    requires
        program.step > 0,
        stands_at(program, pc, instruction),
    ensures
        program.spec_get_instruction(pc) == Ok::<Instruction<F>, ExecutionError>(instruction),
{
    let index = choose|index: int| #[trigger]
        in_step(program, pc, index) && placed_at(program, index, instruction);
    lemma_in_step(program, pc, index);
}

/// Where an instruction that ends the program stands at the program counter, the state records its
/// operand `c` as exit code; nothing else of the state or of the chips changes.
pub proof fn law_execute_terminate<F: PrimeField32, X, C: ExecutionControl<F, X>>(
    executor: &mut VmSegmentExecutor<F, X, C>,
    state: &mut VmSegmentState<F, C::Ctx>,
    backtrace: &mut Option<u64>,
    r: Result<(), ExecutionError>,
    instruction: Instruction<F>,
)
    requires
        old(executor).chip_complex.program.step > 0,
        stands_at(old(executor).chip_complex.program, old(state).pc, instruction),
        terminates(instruction),
        call_ensures(
            VmSegmentExecutor::<F, X, C>::execute_instruction,
            (executor, state, backtrace),
            r,
        ),
    ensures
        r is Ok,
        final(state).exit_code matches Ok(Some(code)) && code == instruction.c.val(),
        final(state).pc == old(state).pc,
        final(state).instret == old(state).instret,
        final(state).memory == old(state).memory,
        final(state).streams == old(state).streams,
        final(state).rng == old(state).rng,
        final(state).ctx == old(state).ctx,
        final(state).imm_cnt == old(state).imm_cnt,
        final(executor).chip_complex == old(executor).chip_complex,
        *final(backtrace) == *old(backtrace),
{
    F::order_is_prime();
    instruction.c.val_is_canonical();
    lemma_stands(old(executor).chip_complex.program, old(state).pc, instruction);
}

/// Where an instruction that asks to fail stands at the program counter, it fails there, the state
/// stays, and the backtrace of the instruction before is handed on.
pub proof fn law_execute_failing<F: PrimeField32, X, C: ExecutionControl<F, X>>(
    executor: &mut VmSegmentExecutor<F, X, C>,
    state: &mut VmSegmentState<F, C::Ctx>,
    backtrace: &mut Option<u64>,
    r: Result<(), ExecutionError>,
    instruction: Instruction<F>,
)
    requires
        old(executor).chip_complex.program.step > 0,
        stands_at(old(executor).chip_complex.program, old(state).pc, instruction),
        asks_to_fail(instruction),
        call_ensures(
            VmSegmentExecutor::<F, X, C>::execute_instruction,
            (executor, state, backtrace),
            r,
        ),
    ensures
        r matches Err(e) && e == (ExecutionError::Fail { pc: old(state).pc }),
        *final(state) == *old(state),
        final(executor).chip_complex.memory == old(executor).chip_complex.memory,
        final(executor).chip_complex.begin == old(executor).chip_complex.begin,
        final(executor).chip_complex.end == old(executor).chip_complex.end,
        old(executor).ctrl.notes_panic(
            old(state).pc,
            *old(backtrace),
            old(executor).chip_complex,
            final(executor).chip_complex,
        ),
{
    lemma_stands(old(executor).chip_complex.program, old(state).pc, instruction);
}

/// Any other instruction that stands at the program counter is carried out by the control: this very
/// instruction, on the state and the chips, and with its result. The backtrace becomes that of the
/// instruction.
pub proof fn law_execute_other<F: PrimeField32, X, C: ExecutionControl<F, X>>(
    executor: &mut VmSegmentExecutor<F, X, C>,
    state: &mut VmSegmentState<F, C::Ctx>,
    backtrace: &mut Option<u64>,
    r: Result<(), ExecutionError>,
    instruction: Instruction<F>,
)
    requires
        old(executor).chip_complex.program.step > 0,
        stands_at(old(executor).chip_complex.program, old(state).pc, instruction),
        !terminates(instruction),
        !asks_to_fail(instruction),
        call_ensures(
            VmSegmentExecutor::<F, X, C>::execute_instruction,
            (executor, state, backtrace),
            r,
        ),
    ensures
        old(executor).ctrl.carries_out(
            (*old(state), old(executor).chip_complex),
            (*final(state), final(executor).chip_complex),
            instruction,
            error_of(r),
        ),
        final(state).instret == old(state).instret,
{
    lemma_stands(old(executor).chip_complex.program, old(state).pc, instruction);
}

/// Where no instruction stands at the program counter, execution fails and nothing changes.
pub proof fn law_execute_nothing<F: PrimeField32, X, C: ExecutionControl<F, X>>(
    executor: &mut VmSegmentExecutor<F, X, C>,
    state: &mut VmSegmentState<F, C::Ctx>,
    backtrace: &mut Option<u64>,
    r: Result<(), ExecutionError>,
)
    requires
        old(executor).chip_complex.program.step > 0,
        forall|instruction: Instruction<F>|
            !#[trigger] stands_at(
                old(executor).chip_complex.program,
                old(state).pc,
                instruction,
            ),
        call_ensures(
            VmSegmentExecutor::<F, X, C>::execute_instruction,
            (executor, state, backtrace),
            r,
        ),
    ensures
        r is Err,
        *final(state) == *old(state),
        final(executor).chip_complex == old(executor).chip_complex,
        *final(backtrace) == *old(backtrace),
{
    let program = old(executor).chip_complex.program;
    let pc = old(state).pc;
    match program.spec_get_instruction(pc) {
        Ok(instruction) => {
            let index = crate::arch::vm::exe_laws::lemma_step_exists(program, pc);
            lemma_in_step(program, pc, index);
            assert(in_step(program, pc, index) && placed_at(program, index, instruction));
            assert(stands_at(program, pc, instruction));
        },
        Err(_) => {},
    }
}

/// The program ended, with success or not.
pub open spec fn program_ended<F, Ctx>(state: VmSegmentState<F, Ctx>) -> bool {
    state.exit_code matches Ok(Some(_))
}

/// Nothing stops a segment in this state: the program has not ended, and the control does not
/// suspend the segment or is not asked, without continuations.
pub open spec fn goes_on<F, X, C: ExecutionControl<F, X>>(
    ctrl: C,
    state: VmSegmentState<F, C::Ctx>,
    chips: VmChipComplex<F, X>,
) -> bool {
    &&& !program_ended(state)
    &&& !chips.config.continuation_enabled || !ctrl.suspends(state, chips)
}

/// The rest of a run is a run.
proof fn lemma_run_rest<F: PrimeField32, X, C: ExecutionControl<F, X>>(
    ctrl: C,
    run: Seq<Point<F, X, C::Ctx>>,
    end: Point<F, X, C::Ctx>,
    error: Option<ExecutionError>,
)
    requires
        is_run(ctrl, run),
        run.len() > 2 || (run.len() == 2 && error is None),
        run_ends(ctrl, run, end, error),
    ensures
        executes(ctrl, run[1], end, error),
{
    reveal(executes);
    let rest = run.drop_first();
    assert forall|k: int| 0 <= k < rest.len() - 1 implies #[trigger] steps_at(ctrl, rest, k) by {
        assert(steps_at(ctrl, run, k + 1));
        assert(rest[k] == run[k + 1] && rest[k + 1] == run[k + 2]);
    }
    assert(is_run(ctrl, rest));
    assert(rest.last() == run.last());
    assert(rest[0] == run[1]);
    assert(run_ends(ctrl, rest, end, error));
}

/// Instructions are executed one after the other without error: where nothing stops the segment and
/// an instruction stands that does not end the program, the control carries it out, its retirement
/// is counted, and the segment goes on from where it led.
pub proof fn law_one_instruction_after_the_other<F: PrimeField32, X, C: ExecutionControl<F, X>>(
    ctrl: C,
    start: Point<F, X, C::Ctx>,
    end: Point<F, X, C::Ctx>,
    instruction: Instruction<F>,
) -> (next: Point<F, X, C::Ctx>)
    requires
        executes(ctrl, start, end, None),
        goes_on(ctrl, start.0, start.1),
        start.1.program.step > 0,
        stands_at(start.1.program, start.0.pc, instruction),
        !terminates(instruction),
    ensures
        !asks_to_fail(instruction),
        next.0.instret == start.0.instret + 1,
        ctrl.carries_out(
            start,
            (VmSegmentState { instret: start.0.instret, ..next.0 }, next.1),
            instruction,
            None,
        ),
        executes(ctrl, next, end, None),
{
    reveal(executes);
    lemma_stands(start.1.program, start.0.pc, instruction);
    let run = choose|run: Seq<Point<F, X, C::Ctx>>| #[trigger]
        is_run(ctrl, run) && run[0] == start && run_ends(ctrl, run, end, None);
    assert(!halts(ctrl, start));
    assert(run.len() > 1);
    assert(steps_at(ctrl, run, 0));
    lemma_run_rest(ctrl, run, end, None);
    run[1]
}

/// Where nothing stops the segment and an instruction stands that ends the program, the segment ends
/// with the operand `c` as exit code and one more instruction retired; the program counter, the
/// memory, the streams and the chips stay.
pub proof fn law_program_ends<F: PrimeField32, X, C: ExecutionControl<F, X>>(
    ctrl: C,
    start: Point<F, X, C::Ctx>,
    end: Point<F, X, C::Ctx>,
    error: Option<ExecutionError>,
    instruction: Instruction<F>,
)
    requires
        executes(ctrl, start, end, error),
        goes_on(ctrl, start.0, start.1),
        start.0.instret < u64::MAX,
        start.1.program.step > 0,
        stands_at(start.1.program, start.0.pc, instruction),
        terminates(instruction),
    ensures
        error is None,
        end.0.exit_code matches Ok(Some(code)) && code == instruction.c.val(),
        end.0.instret == start.0.instret + 1,
        end.0.pc == start.0.pc,
        end.0.memory == start.0.memory,
        end.0.streams == start.0.streams,
        end.0.rng == start.0.rng,
        end.1 == start.1,
{
    F::order_is_prime();
    instruction.c.val_is_canonical();
    lemma_stands(start.1.program, start.0.pc, instruction);
    crate::arch::segment_executor::law_terminate_ends(ctrl, start, end, error, instruction);
}

/// Where nothing stops the segment and an instruction stands that asks to fail, the segment fails
/// there with the state as it was.
pub proof fn law_program_fails<F: PrimeField32, X, C: ExecutionControl<F, X>>(
    ctrl: C,
    start: Point<F, X, C::Ctx>,
    end: Point<F, X, C::Ctx>,
    error: Option<ExecutionError>,
    instruction: Instruction<F>,
)
    requires
        executes(ctrl, start, end, error),
        goes_on(ctrl, start.0, start.1),
        start.1.program.step > 0,
        stands_at(start.1.program, start.0.pc, instruction),
        asks_to_fail(instruction),
    ensures
        error == Some(ExecutionError::Fail { pc: start.0.pc }),
        end.0 == start.0,
        end.1.memory == start.1.memory,
{
    lemma_stands(start.1.program, start.0.pc, instruction);
    crate::arch::segment_executor::law_debug_panic_fails(ctrl, start, end, error, instruction);
}

/// Where nothing stops the segment and no instruction stands, the segment fails and nothing changes.
pub proof fn law_program_runs_out<F: PrimeField32, X, C: ExecutionControl<F, X>>(
    ctrl: C,
    start: Point<F, X, C::Ctx>,
    end: Point<F, X, C::Ctx>,
    error: Option<ExecutionError>,
)
    requires
        executes(ctrl, start, end, error),
        goes_on(ctrl, start.0, start.1),
        start.1.program.step > 0,
        forall|instruction: Instruction<F>|
            !#[trigger] stands_at(start.1.program, start.0.pc, instruction),
    ensures
        error is Some,
        end == start,
{
    reveal(executes);
    let program = start.1.program;
    let pc = start.0.pc;
    if program.spec_get_instruction(pc) is Ok {
        let index = crate::arch::vm::exe_laws::lemma_step_exists(program, pc);
        lemma_in_step(program, pc, index);
        let instruction = program.spec_get_instruction(pc)->Ok_0;
        assert(in_step(program, pc, index) && placed_at(program, index, instruction));
        assert(stands_at(program, pc, instruction));
    }
    let run = choose|run: Seq<Point<F, X, C::Ctx>>| #[trigger]
        is_run(ctrl, run) && run[0] == start && run_ends(ctrl, run, end, error);
    assert(!halts(ctrl, start));
    if run.len() > 1 {
        assert(steps_at(ctrl, run, 0));
    }
}

/// A segment that executes without error ends where it is to stop: the program ended, or with
/// continuations the control suspends it.
pub proof fn law_segment_stops<F: PrimeField32, X, C: ExecutionControl<F, X>>(
    ctrl: C,
    start: Point<F, X, C::Ctx>,
    end: Point<F, X, C::Ctx>,
)
    requires
        executes(ctrl, start, end, None),
    ensures
        !goes_on(ctrl, end.0, end.1),
        !goes_on(ctrl, start.0, start.1) ==> end == start,
{
    reveal(executes);
    let run = choose|run: Seq<Point<F, X, C::Ctx>>| #[trigger]
        is_run(ctrl, run) && run[0] == start && run_ends(ctrl, run, end, None);
    if run.len() > 1 {
        assert(steps_at(ctrl, run, 0));
    }
}

/// A segment is executed by beginning it, executing instructions from the given state on, and, unless
/// they fail, ending it: with the exit code of the program, if it ended.
pub proof fn law_execute_from_state<F: PrimeField32, X, C: ExecutionControl<F, X>>(
    executor: &mut VmSegmentExecutor<F, X, C>,
    state: &mut VmSegmentState<F, C::Ctx>,
    r: Result<(), ExecutionError>,
)
    requires
        old(executor).chip_complex.program.step > 0,
        call_ensures(
            VmSegmentExecutor::<F, X, C>::execute_from_state,
            (executor, state),
            r,
        ),
    ensures
        exists|begun: VmChipComplex<F, X>, done: VmChipComplex<F, X>|
            {
                &&& #[trigger] old(executor).ctrl.begins(
                    *old(state),
                    old(executor).chip_complex,
                    begun,
                )
                &&& #[trigger] executes(
                    old(executor).ctrl,
                    (*old(state), begun),
                    (*final(state), done),
                    error_of(r),
                )
                &&& r is Err ==> final(executor).chip_complex == done
                &&& r is Ok ==> old(executor).ctrl.finishes(
                    *final(state),
                    match final(state).exit_code {
                        Ok(code) => code,
                        Err(_) => None,
                    },
                    done,
                    final(executor).chip_complex,
                )
            },
        final(executor).ctrl == old(executor).ctrl,
{
}

/// Whether a segment suspends is asked of the control only with continuations.
pub proof fn law_should_suspend<F: PrimeField32, X, C: ExecutionControl<F, X>>(
    executor: VmSegmentExecutor<F, X, C>,
    state: VmSegmentState<F, C::Ctx>,
    r: bool,
)
    requires
        call_ensures(VmSegmentExecutor::<F, X, C>::should_suspend, (&executor, &state), r),
    ensures
        executor.chip_complex.config.continuation_enabled ==> r == executor.ctrl.suspends(
            state,
            executor.chip_complex,
        ),
        !executor.chip_complex.config.continuation_enabled ==> !r,
{
}

/// Where traces are generated, a segment suspends when as many instructions are retired as planned,
/// and never if nothing is planned.
pub proof fn law_tracegen_suspends<F, X: InstructionExecutor<F>>(
    ctrl: TracegenExecutionControl,
    state: VmSegmentState<F, TracegenCtx>,
    complex: VmChipComplex<F, X>,
)
    ensures
        state.ctx.instret_end matches Some(end) ==> ctrl.suspends(state, complex) == (state.instret
            >= end),
        state.ctx.instret_end is None ==> !ctrl.suspends(state, complex),
{
}

/// Where traces are generated, the chips record the program counter at which a segment begins, with
/// neither termination nor exit code, and keep everything else.
pub proof fn law_tracegen_begins<F, X: InstructionExecutor<F>>(
    ctrl: TracegenExecutionControl,
    state: VmSegmentState<F, TracegenCtx>,
    before: VmChipComplex<F, X>,
    after: VmChipComplex<F, X>,
)
    requires
        ctrl.begins(state, before, after),
    ensures
        after.begin matches Some(begin) && begin.pc == state.pc && begin.is_terminate == 0
            && begin.exit_code == 0,
        after.end == before.end,
        after.memory == before.memory,
        after.executors == before.executors,
        after.program == before.program,
        after.config == before.config,
{
}

/// Where traces are generated, the chips record how a segment ends: a suspended one without
/// termination and with exit code 42, a terminated one with termination and its exit code, both at
/// the program counter of the state.
pub proof fn law_tracegen_ends<F, X: InstructionExecutor<F>>(
    ctrl: TracegenExecutionControl,
    state: VmSegmentState<F, TracegenCtx>,
    exit_code: Option<u32>,
    before: VmChipComplex<F, X>,
    after: VmChipComplex<F, X>,
)
    requires
        ctrl.finishes(state, exit_code, before, after),
    ensures
        exit_code is None ==> (after.end matches Some(end) && end.pc == state.pc
            && end.is_terminate == 0 && end.exit_code == 42),
        exit_code matches Some(code) ==> (after.end matches Some(end) && end.pc == state.pc
            && end.is_terminate == 1 && end.exit_code == code),
        after.begin == before.begin,
        after.memory == before.memory,
        after.executors == before.executors,
        after.program == before.program,
        after.config == before.config,
{
}

/// Where traces are generated, the executors execute the instruction on the program counter, the
/// streams and the generator of the state and on the memory of the chips, and nothing else changes.
pub proof fn law_tracegen_executes<F, X: InstructionExecutor<F>>(
    ctrl: TracegenExecutionControl,
    before: Point<F, X, TracegenCtx>,
    after: Point<F, X, TracegenCtx>,
    instruction: Instruction<F>,
    error: Option<ExecutionError>,
)
    requires
        ctrl.carries_out(before, after, instruction, error),
    ensures
        X::executes(
            (Machine {
                executors: before.1.executors,
                pc: before.0.pc,
                memory: before.1.memory,
                streams: before.0.streams,
                rng: before.0.rng,
            }),
            (Machine {
                executors: after.1.executors,
                pc: after.0.pc,
                memory: after.1.memory,
                streams: after.0.streams,
                rng: after.0.rng,
            }),
            instruction,
            error,
        ),
        after.0.instret == before.0.instret,
        after.0.exit_code == before.0.exit_code,
        after.0.ctx == before.0.ctx,
        after.1.begin == before.1.begin,
        after.1.end == before.1.end,
        after.1.program == before.1.program,
        after.1.config == before.1.config,
{
}

/// A machine without executors refuses every instruction by its opcode and program counter, and
/// stays as it is.
pub proof fn law_no_executors<F>(
    before: Machine<F, NoExecutors>,
    after: Machine<F, NoExecutors>,
    instruction: Instruction<F>,
    error: Option<ExecutionError>,
)
    requires
        NoExecutors::executes(before, after, instruction, error),
    ensures
        error matches Some(e) && e == (ExecutionError::DisabledOperation {
            pc: before.pc,
            opcode: instruction.opcode,
        }),
        after.pc == before.pc,
        after.memory == before.memory,
        after.streams == before.streams,
        after.rng == before.rng,
{
}

/// What makes the input of a proof is given the chips of the segment, the commitment and the
/// constraints.
pub proof fn law_proof_input<
    F,
    X,
    C,
    PI,
    P,
    G: Fn(VmChipComplex<F, X>, Option<P>, &Vec<LinearConstraint>) -> Result<PI, GenerationError>,
>(
    segment: VmSegmentExecutor<F, X, C>,
    cached_program: Option<P>,
    generate: G,
    r: Result<PI, GenerationError>,
)
    requires
        call_ensures(
            VmSegmentExecutor::<F, X, C>::generate_proof_input::<PI, P, G>,
            (segment, cached_program, generate),
            r,
        ),
    ensures
        call_ensures(
            generate,
            (segment.chip_complex, cached_program, &segment.trace_height_constraints),
            r,
        ),
{
}

/// A context has the end that it is given, and one that is given none has none.
pub proof fn law_tracegen_context(end: Option<u64>, given: TracegenCtx, plain: TracegenCtx)
    requires
        call_ensures(TracegenCtx::new, (end,), given),
        call_ensures(<TracegenCtx as Default>::default, (), plain),
    ensures
        given.instret_end == end,
        plain.instret_end is None,
{
}

/// A new executor of a segment has what it is given.
pub proof fn law_new_segment_executor<F: PrimeField32, X, C: ExecutionControl<F, X>>(
    chips: VmChipComplex<F, X>,
    constraints: Vec<LinearConstraint>,
    ctrl: C,
    r: VmSegmentExecutor<F, X, C>,
    config: &SystemConfig,
)
    requires
        call_ensures(VmSegmentExecutor::<F, X, C>::new, (chips, constraints, ctrl), r),
        call_ensures(VmSegmentExecutor::<F, X, C>::system_config, (&r,), config),
    ensures
        r.chip_complex == chips,
        r.trace_height_constraints == constraints,
        r.ctrl == ctrl,
        *config == chips.config,
{
}

/// Setting the overridden heights of a segment changes nothing else.
pub proof fn law_segment_override_heights<F: PrimeField32, X, C: ExecutionControl<F, X>>(
    segment: &mut VmSegmentExecutor<F, X, C>,
    heights: VmComplexTraceHeights,
)
    requires
        call_ensures(
            VmSegmentExecutor::<F, X, C>::set_override_trace_heights,
            (segment, heights),
            (),
        ),
    ensures
        final(segment).chip_complex.overridden_system == Some(heights.system),
        final(segment).chip_complex.overridden_inventory == Some(heights.inventory),
        final(segment).chip_complex == (VmChipComplex {
            overridden_system: final(segment).chip_complex.overridden_system,
            overridden_inventory: final(segment).chip_complex.overridden_inventory,
            ..old(segment).chip_complex
        }),
        final(segment).trace_height_constraints == old(segment).trace_height_constraints,
        final(segment).ctrl == old(segment).ctrl,
{
}

/// The error of an execution is kept in that of a generation.
pub proof fn law_error_is_kept(e: ExecutionError, r: GenerationError)
    requires
        call_ensures(<GenerationError as From<ExecutionError>>::from, (e,), r),
    ensures
        r matches GenerationError::Execution(f) && f == e,
{
}

} // verus!
