//! What running a program in a single segment does.
use crate::arch::error::ExecutionError;
use crate::arch::segment_executor::{executes, law_tracegen_segment};
use crate::arch::vm::complex::{initialized, VmChipComplex, VmComplexTraceHeights};
use crate::arch::vm::complex_laws::{
    lemma_takes_heights, lemma_takes_program, takes_heights, takes_program,
};
use crate::arch::vm::config::VmConfig;
use crate::arch::vm::control::begun;
use crate::arch::vm::exe::VmExe;
use crate::arch::vm::executor::{chips_take, metered, set_up, SegmentRun, TracegenSegment};
use crate::arch::vm::executor_laws::{lemma_metered, meters, segments_of};
use crate::arch::vm::generate::VmCommittedExe;
use crate::arch::vm::interpreter::{Interpreter, MeterLimits, MeteredOutcome, Segment};
use crate::arch::vm::rng::seeded;
use crate::arch::vm::run::GenerationError;
use crate::arch::vm::single::{
    closes, measures, only_heights, overrides, ran_single, runs_single, spec_only_heights,
    unlimited, SingleSegmentVmExecutionResult, SingleSegmentVmExecutor, TraceMeasure,
};
use crate::arch::vm::streams::Streams;
use crate::field::PrimeField32;
use openvm_stark_backend::keygen::types::LinearConstraint;
use vstd::prelude::*;

verus! {

/// The trace heights of a plan are those of its segment, and there are none unless it has one
/// segment.
pub proof fn law_only_heights(segments: Vec<Segment>, r: Option<Vec<u32>>)
    requires
        call_ensures(only_heights, (segments,), r),
    ensures
        r is Some <==> segments@.len() == 1,
        r matches Some(heights) ==> heights == segments@[0].trace_heights,
{
}

/// The chips of a single segment: those of the configuration with the program and the given heights,
/// and with the overridden heights if there are some.
pub open spec fn chips_of<F: PrimeField32, VC: VmConfig<F>>(
    vm: SingleSegmentVmExecutor<F, VC>,
    exe: VmExe<F>,
    heights: Seq<u32>,
    chips: VmChipComplex<F, VC::Executor>,
) -> bool {
    &&& exists|c: VmChipComplex<F, VC::Executor>|
        {
            &&& #[trigger] vm.config.creates(Ok(c))
            &&& takes_program(c, chips, vm.config.spec_system().profiling, exe.program, None)
            &&& takes_heights(c, chips, heights)
        }
    &&& vm.overridden_heights matches Some(overridden) ==> {
        &&& chips.overridden_system matches Some(system)
        &&& system.memory@ == overridden.system.memory@
        &&& chips.overridden_inventory matches Some(inventory)
        &&& inventory.chips@ == overridden.inventory.chips@
    }
}

/// A single segment was run from the start of the program: with no instruction retired, at the first
/// program counter, with the given input and a generator that is seeded with zero. It executes
/// instructions until it stops, and nothing but the end of the program or an error stops it.
pub open spec fn runs_from_start<F: PrimeField32, VC: VmConfig<F>>(
    vm: SingleSegmentVmExecutor<F, VC>,
    exe: VmExe<F>,
    input: Streams<F>,
    heights: Seq<u32>,
    run: SegmentRun<F, VC::Executor>,
    error: Option<ExecutionError>,
) -> bool {
    &&& chips_of(vm, exe, heights, run.chips)
    &&& run.first.instret == 0
    &&& run.first.pc == exe.pc_start
    &&& run.first.streams == input
    &&& run.first.rng == seeded(0)
    &&& run.first.exit_code matches Ok(None)
    &&& run.first.ctx.instret_end is None
    &&& executes(
        run.executor.ctrl,
        (run.first, begun(run.chips, exe.pc_start)),
        (run.last, VmChipComplex { end: run.chips.end, ..run.executor.chip_complex }),
        error,
    )
    &&& run.executor.chip_complex.begin matches Some(begin)
    &&& begin.pc == exe.pc_start && begin.is_terminate == 0 && begin.exit_code == 0
}

proof fn lemma_runs_from_start<F: PrimeField32, VC: VmConfig<F>>(
    vm: SingleSegmentVmExecutor<F, VC>,
    exe: VmExe<F>,
    input: Streams<F>,
    heights: Seq<u32>,
    executor: TracegenSegment<F, VC::Executor>,
    error: Option<ExecutionError>,
)
    requires
        ran_single(vm.config, vm.overridden_heights, exe, input, Some(heights), executor, error),
        chips_take::<F, VC>(vm.config, Some(heights)),
        forall|c: VmChipComplex<F, VC::Executor>| #[trigger]
            vm.config.creates(Ok(c)) ==> c.insertion_order@.no_duplicates(),
    ensures
        exists|run: SegmentRun<F, VC::Executor>| #[trigger]
            runs_from_start(vm, exe, input, heights, run, error) && run.executor == executor,
{
    reveal(ran_single);
    reveal(set_up);
    let overridden = vm.overridden_heights;
    let run = choose|run: SegmentRun<F, VC::Executor>| #[trigger]
        runs_single(vm.config, overridden, exe, input, Some(heights), run, error) && run.executor
            == executor;
    let planned = choose|planned: VmChipComplex<F, VC::Executor>| #[trigger]
        set_up(vm.config, exe, None, Some(heights), planned) && overrides(
            planned,
            run.chips,
            overridden,
        );
    let profiling = vm.config.spec_system().profiling;
    let c = choose|c: VmChipComplex<F, VC::Executor>| #[trigger]
        vm.config.creates(Ok(c)) && initialized(
            c,
            planned,
            profiling,
            exe.program,
            None,
            Some(heights),
        );
    lemma_takes_program(c, planned, profiling, exe.program, None, Some(heights));
    lemma_takes_heights(c, planned, profiling, exe.program, None, heights);
    law_tracegen_segment(
        run.executor.ctrl,
        run.chips,
        run.first,
        run.executor.chip_complex,
        run.last,
        error,
    );
    assert(takes_program(c, run.chips, profiling, exe.program, None));
    assert(takes_heights(c, run.chips, heights));
    assert(chips_of(vm, exe, heights, run.chips));
    assert(runs_from_start(vm, exe, input, heights, run, error));
}

/// Running a committed program in a single segment gives its executor and the commitment to
/// `generate`, or the error of the execution back.
pub proof fn law_single_generate<
    F: PrimeField32,
    VC: VmConfig<F>,
    PI,
    P,
    G: Fn(TracegenSegment<F, VC::Executor>, &P) -> Result<PI, GenerationError>,
>(
    vm: SingleSegmentVmExecutor<F, VC>,
    committed: VmCommittedExe<F, P>,
    input: Streams<F>,
    heights: &[u32],
    generate: G,
    r: Result<PI, GenerationError>,
)
    requires
        chips_take::<F, VC>(vm.config, Some(heights@)),
        forall|c: VmChipComplex<F, VC::Executor>| #[trigger]
            vm.config.creates(Ok(c)) ==> c.insertion_order@.no_duplicates(),
        call_ensures(
            SingleSegmentVmExecutor::<F, VC>::execute_and_generate::<PI, P, G>,
            (&vm, &committed, input, heights, generate),
            r,
        ),
    ensures
        exists|run: SegmentRun<F, VC::Executor>, error: Option<ExecutionError>|
            {
                &&& #[trigger] runs_from_start(vm, committed.exe, input, heights@, run, error)
                &&& match error {
                    None => call_ensures(
                        generate,
                        (run.executor, &committed.committed_program),
                        r,
                    ) && run.executor.trace_height_constraints@ == vm.trace_height_constraints@,
                    Some(e) => r matches Err(GenerationError::Execution(f)) && f == e,
                }
            },
{
    let executed = choose|executed: Result<TracegenSegment<F, VC::Executor>, ExecutionError>|
        {
            &&& #[trigger] vm.ran(committed.exe, input, Some(heights@), executed)
            &&& match executed {
                Ok(segment) => call_ensures(generate, (segment, &committed.committed_program), r),
                Err(e) => r == Err::<PI, GenerationError>(GenerationError::Execution(e)),
            }
        };
    match executed {
        Ok(segment) => {
            lemma_runs_from_start(vm, committed.exe, input, heights@, segment, None);
        },
        Err(e) => {
            let segment = choose|segment: TracegenSegment<F, VC::Executor>| #[trigger]
                ran_single(
                    vm.config,
                    vm.overridden_heights,
                    committed.exe,
                    input,
                    Some(heights@),
                    segment,
                    Some(e),
                );
            lemma_runs_from_start(vm, committed.exe, input, heights@, segment, Some(e));
        },
    }
}

/// `result` is what was read off the chips once their memory was closed: the heights of the AIRs, the
/// heights of the chips, and the public values, of which there are none unless they have a chip.
pub open spec fn read_off<F, X, T: TraceMeasure<F, X>>(
    measure: T,
    chips: VmChipComplex<F, X>,
    closed: VmChipComplex<F, X>,
    result: SingleSegmentVmExecutionResult<F>,
) -> bool {
    &&& call_ensures(T::finalize_memory, (&measure, chips), closed)
    &&& call_ensures(T::current_trace_heights, (&measure, &closed), result.air_heights)
    &&& call_ensures(T::get_internal_trace_heights, (&measure, &closed), result.vm_heights)
    &&& if chips.config.num_public_values > 0 && !chips.config.continuation_enabled {
        call_ensures(T::get_custom_public_values, (&measure, &closed), result.public_values)
    } else {
        result.public_values@.len() == 0
    }
}

/// Running a program in a single segment and measuring it reads the heights and public values off
/// its chips, or gives the error of the execution.
pub proof fn law_single_heights<F: PrimeField32, VC: VmConfig<F>, T: TraceMeasure<F, VC::Executor>>(
    vm: SingleSegmentVmExecutor<F, VC>,
    exe: VmExe<F>,
    input: Streams<F>,
    heights: &[u32],
    measure: T,
    r: Result<SingleSegmentVmExecutionResult<F>, ExecutionError>,
)
    requires
        chips_take::<F, VC>(vm.config, Some(heights@)),
        forall|c: VmChipComplex<F, VC::Executor>| #[trigger]
            vm.config.creates(Ok(c)) ==> c.insertion_order@.no_duplicates(),
        call_ensures(
            SingleSegmentVmExecutor::<F, VC>::execute_and_compute_heights::<T>,
            (&vm, &exe, input, heights, &measure),
            r,
        ),
    ensures
        exists|run: SegmentRun<F, VC::Executor>, error: Option<ExecutionError>|
            {
                &&& #[trigger] runs_from_start(vm, exe, input, heights@, run, error)
                &&& match error {
                    None => r matches Ok(result) && exists|closed: VmChipComplex<F, VC::Executor>|
                        #[trigger]
                        read_off(measure, run.executor.chip_complex, closed, result),
                    Some(e) => r matches Err(f) && f == e,
                }
            },
{
    let executed = choose|executed: Result<TracegenSegment<F, VC::Executor>, ExecutionError>|
        {
            &&& #[trigger] vm.ran(exe, input, Some(heights@), executed)
            &&& match (executed, r) {
                (Ok(segment), Ok(result)) => measures(measure, segment.chip_complex, result),
                (Err(e), Err(f)) => e == f,
                _ => false,
            }
        };
    match executed {
        Ok(segment) => {
            lemma_runs_from_start(vm, exe, input, heights@, segment, None);
            let run = choose|run: SegmentRun<F, VC::Executor>| #[trigger]
                runs_from_start(vm, exe, input, heights@, run, None) && run.executor == segment;
            let result = r->Ok_0;
            let closed = choose|closed: VmChipComplex<F, VC::Executor>| #[trigger]
                closes(measure, segment.chip_complex, closed) && {
                    &&& call_ensures(
                        T::current_trace_heights,
                        (&measure, &closed),
                        result.air_heights,
                    )
                    &&& call_ensures(
                        T::get_internal_trace_heights,
                        (&measure, &closed),
                        result.vm_heights,
                    )
                    &&& if segment.chip_complex.config.spec_has_public_values_chip() {
                        call_ensures(
                            T::get_custom_public_values,
                            (&measure, &closed),
                            result.public_values,
                        )
                    } else {
                        result.public_values@ == Seq::<Option<F>>::empty()
                    }
                };
            assert(read_off(measure, run.executor.chip_complex, closed, result));
            assert(runs_from_start(vm, exe, input, heights@, run, None));
        },
        Err(e) => {
            let segment = choose|segment: TracegenSegment<F, VC::Executor>| #[trigger]
                ran_single(
                    vm.config,
                    vm.overridden_heights,
                    exe,
                    input,
                    Some(heights@),
                    segment,
                    Some(e),
                );
            lemma_runs_from_start(vm, exe, input, heights@, segment, Some(e));
        },
    }
}

/// Metering a program that is to run in a single segment never looks at the traces between its start
/// and its end. It gives the heights of the segment if the program ended with exit code zero and took
/// one.
pub proof fn law_single_metered<F: PrimeField32, VC: VmConfig<F>, I: Interpreter<F, VC>>(
    vm: SingleSegmentVmExecutor<F, VC>,
    exe: VmExe<F>,
    input: Streams<F>,
    interactions: &[usize],
    r: Result<Option<Vec<u32>>, ExecutionError>,
)
    requires
        call_ensures(
            SingleSegmentVmExecutor::<F, VC>::execute_metered::<I>,
            (&vm, exe, input, interactions),
            r,
        ),
    ensures
        exists|
            limits: MeterLimits,
            interpreter: I,
            chips: VmChipComplex<F, VC::Executor>,
            outcome: Result<MeteredOutcome, ExecutionError>,
        |
            {
                &&& #[trigger] meters(
                    vm.config,
                    exe,
                    interactions,
                    limits,
                    input,
                    interpreter,
                    chips,
                    outcome,
                )
                &&& limits.max_trace_height is None
                &&& limits.max_cells is None
                &&& limits.segment_check_insns == Some(0xffff_ffff_ffff_ffffu64)
                &&& match r {
                    Err(e) => segments_of(outcome, Err(e)),
                    Ok(heights) => exists|segments: Vec<Segment>|
                        {
                            &&& #[trigger] segments_of(outcome, Ok(segments))
                            &&& heights is Some <==> segments@.len() == 1
                            &&& heights matches Some(h) ==> h == segments@[0].trace_heights
                        },
                }
            },
{
    let limits = unlimited();
    let outcome = choose|outcome: Result<MeteredOutcome, ExecutionError>|
        {
            &&& #[trigger] metered::<F, VC, I>(vm.config, exe, interactions, limits, input, outcome)
            &&& r == (match outcome {
                Err(e) => Err(e),
                Ok(outcome) => match outcome.spec_into_segments() {
                    Err(e) => Err(e),
                    Ok(segments) => Ok(spec_only_heights(segments@)),
                },
            })
        };
    lemma_metered::<F, VC, I>(vm.config, exe, interactions, limits, input, outcome);
    if r is Ok {
        assert(segments_of(outcome, Ok(outcome->Ok_0.segments)));
    }
}

/// A new executor has the configuration, no constraints, and the heights that it was given, if any.
pub proof fn law_new_single<F: PrimeField32, VC: VmConfig<F>>(
    config: VC,
    heights: Option<VmComplexTraceHeights>,
    plain: SingleSegmentVmExecutor<F, VC>,
    overridden: SingleSegmentVmExecutor<F, VC>,
)
    requires
        call_ensures(SingleSegmentVmExecutor::<F, VC>::new, (config,), plain),
        call_ensures(
            SingleSegmentVmExecutor::<F, VC>::new_with_overridden_trace_heights,
            (config, heights),
            overridden,
        ),
    ensures
        plain.config == config,
        plain.overridden_heights is None,
        plain.trace_height_constraints@.len() == 0,
        overridden.config == config,
        overridden.overridden_heights == heights,
        overridden.trace_height_constraints@.len() == 0,
{
}

/// Setting the overridden heights of an executor changes nothing else.
pub proof fn law_single_override_heights<F: PrimeField32, VC: VmConfig<F>>(
    vm: &mut SingleSegmentVmExecutor<F, VC>,
    heights: VmComplexTraceHeights,
)
    requires
        call_ensures(
            SingleSegmentVmExecutor::<F, VC>::set_override_trace_heights,
            (vm, heights),
            (),
        ),
    ensures
        final(vm).overridden_heights == Some(heights),
        final(vm).config == old(vm).config,
        final(vm).trace_height_constraints == old(vm).trace_height_constraints,
{
}

/// Setting the constraints of an executor changes nothing else.
pub proof fn law_single_set_constraints<F: PrimeField32, VC: VmConfig<F>>(
    vm: &mut SingleSegmentVmExecutor<F, VC>,
    constraints: Vec<LinearConstraint>,
)
    requires
        call_ensures(
            SingleSegmentVmExecutor::<F, VC>::set_trace_height_constraints,
            (vm, constraints),
            (),
        ),
    ensures
        final(vm).trace_height_constraints == constraints,
        final(vm).config == old(vm).config,
        final(vm).overridden_heights == old(vm).overridden_heights,
{
}

} // verus!
