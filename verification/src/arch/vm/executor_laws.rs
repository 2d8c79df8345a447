//! What the executor of programs passes to interpreters and chips, and what it gives back.
use crate::arch::error::ExecutionError;
use crate::arch::execution_mode::e1::{E1Ctx, E1View};
use crate::arch::execution_mode::E1ExecutionCtx;
use crate::arch::segment::VmSegmentState;
use crate::arch::vm::complex::{initialized, VmChipComplex, VmComplexTraceHeights};
use crate::arch::vm::complex_laws::{lemma_takes_heights, takes_heights};
use crate::arch::vm::config::{SystemConfig, VmConfig};
use crate::arch::vm::constraint::copy_constraints;
use crate::arch::vm::exe::VmExe;
use crate::arch::vm::executor::{
    chips_take, e1_result, finish_e1, interpreted, interprets, link, metered, set_up, spec_limits,
    Handover, SegmentRun, VmExecutor,
};
use crate::arch::vm::exit::ExitCode;
use crate::arch::vm::interpreter::{Interpreter, MeterLimits, MeteredOutcome, Segment};
use crate::arch::vm::report::AccessReport;
use crate::arch::vm::report_laws::{hands_on, lemma_hands_on, untold};
use crate::arch::vm::state::VmState;
use crate::arch::vm::streams::Streams;
use crate::field::PrimeField32;
use openvm_stark_backend::keygen::types::LinearConstraint;
use vstd::prelude::*;

verus! {

/// Success is zero, an error one, and suspension minus one.
pub proof fn law_exit_codes(e: ExitCode, r: i32)
    requires
        call_ensures(ExitCode::code, (e,), r),
    ensures
        e is Success <==> r == 0,
        e is Error <==> r == 1,
        e is Suspended <==> r == -1,
{
}

/// A copy of constraints holds the same ones in the same order.
pub proof fn law_copy_constraints(constraints: Vec<LinearConstraint>, r: Vec<LinearConstraint>)
    requires
        call_ensures(copy_constraints, (&constraints,), r),
    ensures
        r@.len() == constraints@.len(),
        forall|i: int| 0 <= i < r@.len() ==> #[trigger] r@[i] == constraints@[i],
{
}

/// Plain execution hands on the count, the program counter, the memory, the input and the generator
/// that it left, and the counts of its accesses.
pub proof fn law_finish_e1<F>(
    state: VmSegmentState<F, E1Ctx>,
    r: (VmState<F>, Option<AccessReport>),
)
    requires
        call_ensures(finish_e1::<F>, (state,), r),
    ensures
        hands_on(state, r),
{
    lemma_hands_on(state, r);
}

/// `outcome` is what an interpreter of the program makes of the input, in a context that was told of
/// no access and that stops after the given number of instructions, or never if none is given.
pub open spec fn plainly_executed<F, VC, I: Interpreter<F, VC>>(
    config: VC,
    exe: VmExe<F>,
    num_insns: Option<u64>,
    inputs: Streams<F>,
    interpreter: I,
    ctx: E1Ctx,
    outcome: Result<VmSegmentState<F, E1Ctx>, ExecutionError>,
) -> bool {
    &&& call_ensures(I::new, (&config, exe), interpreter)
    &&& untold(ctx.ctx_view())
    &&& num_insns matches Some(n) ==> ctx.ctx_view().instret_end == n
    &&& num_insns is None ==> ctx.ctx_view().instret_end == 0xffff_ffff_ffff_ffff
    &&& call_ensures(I::execute, (&interpreter, ctx, inputs), outcome)
}

/// Plain execution of a program hands on what its interpreter left, or its error.
pub proof fn law_execute_e1<F: PrimeField32, VC: VmConfig<F>, I: Interpreter<F, VC>>(
    vm: VmExecutor<F, VC>,
    exe: VmExe<F>,
    inputs: Streams<F>,
    num_insns: Option<u64>,
    r: Result<(VmState<F>, Option<AccessReport>), ExecutionError>,
)
    requires
        call_ensures(VmExecutor::<F, VC>::execute_e1::<I>, (&vm, exe, inputs, num_insns), r),
    ensures
        exists|
            interpreter: I,
            ctx: E1Ctx,
            outcome: Result<VmSegmentState<F, E1Ctx>, ExecutionError>,
        |
            {
                &&& #[trigger] plainly_executed(
                    vm.config,
                    exe,
                    num_insns,
                    inputs,
                    interpreter,
                    ctx,
                    outcome,
                )
                &&& match outcome {
                    Ok(state) => r matches Ok(left) && hands_on(state, left),
                    Err(e) => r matches Err(f) && f == e,
                }
            },
{
    let outcome = choose|outcome: Result<VmSegmentState<F, E1Ctx>, ExecutionError>|
        {
            &&& #[trigger] interpreted::<F, VC, I>(vm.config, exe, num_insns, inputs, outcome)
            &&& match outcome {
                Err(e) => r == Err::<(VmState<F>, Option<AccessReport>), ExecutionError>(e),
                Ok(state) => r is Ok && e1_result(state, r->Ok_0),
            }
        };
    let (interpreter, ctx) = choose|interpreter: I, ctx: E1Ctx|
        {
            &&& #[trigger] interprets(vm.config, exe, interpreter)
            &&& #[trigger] ctx.ctx_view() == (E1View {
                instret_end: match num_insns {
                    Some(end) => end,
                    None => u64::MAX,
                },
                stats: Map::empty(),
                loadstore_stats: Map::empty(),
            })
            &&& call_ensures(I::execute, (&interpreter, ctx, inputs), outcome)
        };
    assert(plainly_executed(vm.config, exe, num_insns, inputs, interpreter, ctx, outcome));
    if outcome is Ok {
        lemma_hands_on(outcome->Ok_0, r->Ok_0);
    }
}

/// `outcome` is what an interpreter of the program meters on chips of the configuration, within the
/// given limits.
pub open spec fn meters<F: PrimeField32, VC: VmConfig<F>, I: Interpreter<F, VC>>(
    config: VC,
    exe: VmExe<F>,
    interactions: &[usize],
    limits: MeterLimits,
    inputs: Streams<F>,
    interpreter: I,
    chips: VmChipComplex<F, VC::Executor>,
    outcome: Result<MeteredOutcome, ExecutionError>,
) -> bool {
    &&& call_ensures(I::new, (&config, exe), interpreter)
    &&& config.creates(Ok(chips))
    &&& call_ensures(
        I::execute_e2::<VC::Executor>,
        (&interpreter, &chips, interactions, limits, inputs),
        outcome,
    )
}

/// The segments of a metered program that ended with exit code zero, or why it did not.
pub open spec fn segments_of(
    outcome: Result<MeteredOutcome, ExecutionError>,
    r: Result<Vec<Segment>, ExecutionError>,
) -> bool {
    match outcome {
        Err(e) => r matches Err(f) && f == e,
        Ok(outcome) => match outcome.exit_code {
            Err(e) => r matches Err(f) && f == e,
            Ok(None) => r matches Err(f) && f == ExecutionError::DidNotTerminate,
            Ok(Some(code)) => if code == 0 {
                r matches Ok(segments) && segments == outcome.segments
            } else {
                r matches Err(f) && f == ExecutionError::FailedWithExitCode(code)
            },
        },
    }
}

/// What comes of metering.
pub proof fn lemma_metered<F: PrimeField32, VC: VmConfig<F>, I: Interpreter<F, VC>>(
    config: VC,
    exe: VmExe<F>,
    interactions: &[usize],
    limits: MeterLimits,
    inputs: Streams<F>,
    outcome: Result<MeteredOutcome, ExecutionError>,
)
    requires
        metered::<F, VC, I>(config, exe, interactions, limits, inputs, outcome),
    ensures
        exists|interpreter: I, chips: VmChipComplex<F, VC::Executor>| #[trigger]
            meters(config, exe, interactions, limits, inputs, interpreter, chips, outcome),
{
    let (interpreter, chips) = choose|interpreter: I, c: VmChipComplex<F, VC::Executor>|
        {
            &&& #[trigger] interprets(config, exe, interpreter)
            &&& #[trigger] config.creates(Ok(c))
            &&& call_ensures(
                I::execute_e2::<VC::Executor>,
                (&interpreter, &c, interactions, limits, inputs),
                outcome,
            )
        };
    assert(meters(config, exe, interactions, limits, inputs, interpreter, chips, outcome));
}

/// The limits within which a program is metered are those of the configuration: the trace height, of
/// which the low 32 bits count, and the cells, with the interpreter's own distance between two looks at the traces.
pub open spec fn limits_of(max_trace_height: usize, max_cells: usize, limits: MeterLimits) -> bool {
    &&& limits.max_trace_height matches Some(height)
    &&& height as int == max_trace_height as int % 0x1_0000_0000
    &&& limits.max_cells matches Some(cells)
    &&& cells == max_cells
    &&& limits.segment_check_insns is None
}

/// The limits of a configuration.
pub proof fn lemma_limits(config: SystemConfig)
    ensures
        limits_of(
            config.segmentation_limits.max_trace_height,
            config.segmentation_limits.max_cells,
            spec_limits(config),
        ),
{
    let height = config.segmentation_limits.max_trace_height;
    assert(height as u32 == (height as u64) % 0x1_0000_0000u64) by (bit_vector);
}

/// Metered execution of a program gives the segments that its interpreter finds within the limits of
/// the configuration, if the program ended with exit code zero.
pub proof fn law_execute_metered<F: PrimeField32, VC: VmConfig<F>, I: Interpreter<F, VC>>(
    vm: VmExecutor<F, VC>,
    exe: VmExe<F>,
    input: Streams<F>,
    interactions: &[usize],
    r: Result<Vec<Segment>, ExecutionError>,
)
    requires
        call_ensures(VmExecutor::<F, VC>::execute_metered::<I>, (&vm, exe, input, interactions), r),
    ensures
        exists|
            limits: MeterLimits,
            interpreter: I,
            chips: VmChipComplex<F, VC::Executor>,
            outcome: Result<MeteredOutcome, ExecutionError>,
        |
            {
                &&& #[trigger] meters(
                    vm.config,
                    exe,
                    interactions,
                    limits,
                    input,
                    interpreter,
                    chips,
                    outcome,
                )
                &&& limits_of(
                    vm.config.spec_system().segmentation_limits.max_trace_height,
                    vm.config.spec_system().segmentation_limits.max_cells,
                    limits,
                )
                &&& segments_of(outcome, r)
            },
{
    let limits = spec_limits(vm.config.spec_system());
    let outcome = choose|outcome: Result<MeteredOutcome, ExecutionError>|
        {
            &&& #[trigger] metered::<F, VC, I>(vm.config, exe, interactions, limits, input, outcome)
            &&& r == (match outcome {
                Err(e) => Err(e),
                Ok(outcome) => outcome.spec_into_segments(),
            })
        };
    lemma_metered::<F, VC, I>(vm.config, exe, interactions, limits, input, outcome);
    lemma_limits(vm.config.spec_system());
}

/// The chips of a segment have the trace heights that were planned for it.
pub proof fn law_segment_heights<F: PrimeField32, VC: VmConfig<F>>(
    vm: VmExecutor<F, VC>,
    exe: VmExe<F>,
    from: Handover<F>,
    segment: Segment,
    run: SegmentRun<F, VC::Executor>,
)
    requires
        link(vm, exe, from, segment, run),
        chips_take::<F, VC>(vm.config, Some(segment.trace_heights@)),
        forall|c: VmChipComplex<F, VC::Executor>| #[trigger]
            vm.config.creates(Ok(c)) ==> c.insertion_order@.no_duplicates(),
    ensures
        exists|c: VmChipComplex<F, VC::Executor>| #[trigger]
            vm.config.creates(Ok(c)) && takes_heights(c, run.chips, segment.trace_heights@),
        run.executor.chip_complex.adapter_heights == run.chips.adapter_heights,
        run.executor.chip_complex.executor_heights == run.chips.executor_heights,
{
    reveal(link);
    reveal(set_up);
    let profiling = vm.config.spec_system().profiling;
    let heights = segment.trace_heights@;
    let c = choose|c: VmChipComplex<F, VC::Executor>| #[trigger]
        vm.config.creates(Ok(c)) && initialized(
            c,
            run.chips,
            profiling,
            exe.program,
            Some(from.memory),
            Some(heights),
        );
    lemma_takes_heights(c, run.chips, profiling, exe.program, Some(from.memory), heights);
}

/// A new executor has the configuration, no constraints, and the heights that it was given, if any.
pub proof fn law_new_executor<F: PrimeField32, VC: VmConfig<F>>(
    config: VC,
    heights: Option<VmComplexTraceHeights>,
    plain: VmExecutor<F, VC>,
    overridden: VmExecutor<F, VC>,
    enabled: bool,
)
    requires
        call_ensures(VmExecutor::<F, VC>::new, (config,), plain),
        call_ensures(
            VmExecutor::<F, VC>::new_with_overridden_trace_heights,
            (config, heights),
            overridden,
        ),
        call_ensures(VmExecutor::<F, VC>::continuation_enabled, (&plain,), enabled),
    ensures
        plain.config == config,
        plain.overridden_heights is None,
        plain.trace_height_constraints@.len() == 0,
        overridden.config == config,
        overridden.overridden_heights == heights,
        overridden.trace_height_constraints@.len() == 0,
        enabled == config.spec_system().continuation_enabled,
{
}

/// Setting the overridden heights of an executor changes nothing else.
pub proof fn law_override_heights<F: PrimeField32, VC: VmConfig<F>>(
    vm: &mut VmExecutor<F, VC>,
    heights: VmComplexTraceHeights,
)
    requires
        call_ensures(VmExecutor::<F, VC>::set_override_trace_heights, (vm, heights), ()),
    ensures
        final(vm).overridden_heights == Some(heights),
        final(vm).config == old(vm).config,
        final(vm).trace_height_constraints == old(vm).trace_height_constraints,
{
}

/// Setting the constraints of an executor changes nothing else.
pub proof fn law_set_constraints<F: PrimeField32, VC: VmConfig<F>>(
    vm: &mut VmExecutor<F, VC>,
    constraints: Vec<LinearConstraint>,
)
    requires
        call_ensures(VmExecutor::<F, VC>::set_trace_height_constraints, (vm, constraints), ()),
    ensures
        final(vm).trace_height_constraints == constraints,
        final(vm).config == old(vm).config,
        final(vm).overridden_heights == old(vm).overridden_heights,
{
}

} // verus!
