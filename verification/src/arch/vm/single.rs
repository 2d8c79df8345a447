//! Programs that run in a single segment.
use crate::arch::error::{error_of, ExecutionError};
use crate::arch::segment::VmSegmentState;
use crate::arch::segment_executor::{law_tracegen_segment, segment_executes, VmSegmentExecutor};
use crate::arch::vm::complex::{
    create_and_initialize_chip_complex, VmChipComplex, VmComplexTraceHeights,
};
use crate::arch::vm::config::VmConfig;
use crate::arch::vm::constraint::copy_constraints;
use crate::arch::vm::control::{begin_state, TracegenCtx, TracegenExecutionControl};
use crate::arch::vm::exe::VmExe;
use crate::arch::vm::executor::{
    chips_take, interprets, lemma_set_up, metered, set_up, SegmentRun, TracegenSegment, TracegenState,
};
use crate::arch::vm::generate::VmCommittedExe;
use crate::arch::vm::interpreter::{Interpreter, MeterLimits, MeteredOutcome, Segment};
use crate::arch::vm::rng::{seed_from_u64, seeded};
use crate::arch::vm::run::GenerationError;
use crate::arch::vm::streams::Streams;
use crate::field::PrimeField32;
use openvm_stark_backend::keygen::types::LinearConstraint;
use std::marker::PhantomData;
use vstd::prelude::*;

verus! {

/// Executes programs in a single segment.
pub struct SingleSegmentVmExecutor<F, VC> {
    pub config: VC,
    pub overridden_heights: Option<VmComplexTraceHeights>,
    pub trace_height_constraints: Vec<LinearConstraint>,
    pub marker: PhantomData<F>,
}

/// What the execution of a single segment gives.
#[derive(Debug)]
pub struct SingleSegmentVmExecutionResult<F> {
    /// All user public values.
    pub public_values: Vec<Option<F>>,
    /// The heights of the AIRs, in the order in which [`TraceMeasure::current_trace_heights`] lists
    /// them.
    pub air_heights: Vec<usize>,
    /// The heights of the chips.
    pub vm_heights: VmComplexTraceHeights,
}

/// Reads trace heights and public values off chips.
pub trait TraceMeasure<F, X> {
    /// Closes the memory.
    fn finalize_memory(&self, complex: VmChipComplex<F, X>) -> VmChipComplex<F, X>;

    /// The heights of the AIRs. Their order, by AIR, is for the implementer to keep.
    fn current_trace_heights(&self, complex: &VmChipComplex<F, X>) -> Vec<usize>;

    fn get_internal_trace_heights(&self, complex: &VmChipComplex<F, X>) -> VmComplexTraceHeights;

    fn get_custom_public_values(&self, complex: &VmChipComplex<F, X>) -> Vec<Option<F>>;
}

/// The limits with which a program is metered that runs in a single segment: the traces are never
/// looked at.
pub open spec fn unlimited() -> MeterLimits {
    MeterLimits {
        max_trace_height: None,
        max_cells: None,
        segment_check_insns: Some(u64::MAX),
    }
}

/// The trace heights of the only segment, if there is only one.
pub open spec fn spec_only_heights(segments: Seq<Segment>) -> Option<Vec<u32>> {
    if segments.len() == 1 {
        Some(segments[0].trace_heights)
    } else {
        None
    }
}

/// The trace heights of the only segment, if there is only one.
pub fn only_heights(segments: Vec<Segment>) -> (r: Option<Vec<u32>>)
    ensures
        r == spec_only_heights(segments@),
{
    if segments.len() != 1 {
        return None;
    }
    let mut segments = segments;
    match segments.pop() {
        Some(segment) => Some(segment.trace_heights),
        None => None,
    }
}

/// The state in which a program starts that runs in a single segment.
pub open spec fn starts_single<F>(exe: VmExe<F>, input: Streams<F>, first: TracegenState<F>) -> bool {
    &&& first.instret == 0
    &&& first.pc == exe.pc_start
    &&& first.memory@ == Seq::<Seq<u32>>::empty()
    &&& first.streams == input
    &&& first.rng == seeded(0)
    &&& first.exit_code == Ok::<Option<u32>, ExecutionError>(None)
    &&& first.ctx.instret_end is None
}

/// `executor` executed a program in a single segment from its start on, with an error or without.
#[verifier::opaque]
pub open spec fn ran_single<F: PrimeField32, VC: VmConfig<F>>(
    config: VC,
    overridden: Option<VmComplexTraceHeights>,
    exe: VmExe<F>,
    input: Streams<F>,
    heights: Option<Seq<u32>>,
    executor: TracegenSegment<F, VC::Executor>,
    error: Option<ExecutionError>,
) -> bool {
    exists|run: SegmentRun<F, VC::Executor>| #[trigger]
        runs_single(config, overridden, exe, input, heights, run, error) && run.executor == executor
}

/// A program was executed in a single segment: on chips of the configuration, with the program,
/// the trace heights and overridden heights set, from its start on.
pub open spec fn runs_single<F: PrimeField32, VC: VmConfig<F>>(
    config: VC,
    overridden: Option<VmComplexTraceHeights>,
    exe: VmExe<F>,
    input: Streams<F>,
    heights: Option<Seq<u32>>,
    run: SegmentRun<F, VC::Executor>,
    error: Option<ExecutionError>,
) -> bool {
    &&& exists|planned: VmChipComplex<F, VC::Executor>| #[trigger]
        set_up(config, exe, None, heights, planned) && overrides(planned, run.chips, overridden)
    &&& run.chips.config.same(&config.spec_system())
    &&& starts_single(exe, input, run.first)
    &&& segment_executes(
        run.executor.ctrl,
        run.chips,
        run.first,
        run.executor.chip_complex,
        run.last,
        error,
    )
    &&& run.executor.chip_complex.same_layout(&run.chips)
    &&& run.executor.chip_complex.begin == Some(begin_state(exe.pc_start))
}

/// The chips differ at most in overridden trace heights, which are the given ones.
pub open spec fn overrides<F, X>(
    planned: VmChipComplex<F, X>,
    complex: VmChipComplex<F, X>,
    overridden: Option<VmComplexTraceHeights>,
) -> bool {
    &&& complex == (VmChipComplex {
        overridden_system: complex.overridden_system,
        overridden_inventory: complex.overridden_inventory,
        ..planned
    })
    &&& match overridden {
        Some(heights) => {
            &&& complex.overridden_system is Some
            &&& complex.overridden_inventory is Some
            &&& heights.same(
                &(VmComplexTraceHeights {
                    system: complex.overridden_system->0,
                    inventory: complex.overridden_inventory->0,
                }),
            )
        },
        None => {
            &&& complex.overridden_system == planned.overridden_system
            &&& complex.overridden_inventory == planned.overridden_inventory
        },
    }
}

impl<F: PrimeField32, VC: VmConfig<F>> SingleSegmentVmExecutor<F, VC> {
    /// `r` may come of executing a program.
    pub open spec fn ran(
        &self,
        exe: VmExe<F>,
        input: Streams<F>,
        heights: Option<Seq<u32>>,
        r: Result<TracegenSegment<F, VC::Executor>, ExecutionError>,
    ) -> bool {
        match r {
            Ok(segment) => {
                &&& ran_single(
                    self.config,
                    self.overridden_heights,
                    exe,
                    input,
                    heights,
                    segment,
                    None,
                )
                &&& segment.trace_height_constraints@ == self.trace_height_constraints@
            },
            Err(e) => exists|segment: TracegenSegment<F, VC::Executor>| #[trigger]
                ran_single(
                    self.config,
                    self.overridden_heights,
                    exe,
                    input,
                    heights,
                    segment,
                    Some(e),
                ),
        }
    }

    pub fn new(config: VC) -> (r: Self)
        requires
            !config.spec_system().continuation_enabled,
        ensures
            r.config == config,
            r.overridden_heights is None,
            r.trace_height_constraints@ == Seq::<LinearConstraint>::empty(),
    {
        Self::new_with_overridden_trace_heights(config, None)
    }

    pub fn new_with_overridden_trace_heights(
        config: VC,
        overridden_heights: Option<VmComplexTraceHeights>,
    ) -> (r: Self)
        requires
            !config.spec_system().continuation_enabled,
        ensures
            r.config == config,
            r.overridden_heights == overridden_heights,
            r.trace_height_constraints@ == Seq::<LinearConstraint>::empty(),
    {
        SingleSegmentVmExecutor {
            config,
            overridden_heights,
            trace_height_constraints: Vec::new(),
            marker: PhantomData,
        }
    }

    pub fn set_override_trace_heights(&mut self, overridden_heights: VmComplexTraceHeights)
        ensures
            *final(self) == (SingleSegmentVmExecutor {
                overridden_heights: Some(overridden_heights),
                ..*old(self)
            }),
    {
        self.overridden_heights = Some(overridden_heights);
    }

    pub fn set_trace_height_constraints(&mut self, constraints: Vec<LinearConstraint>)
        ensures
            *final(self) == (SingleSegmentVmExecutor {
                trace_height_constraints: constraints,
                ..*old(self)
            }),
    {
        self.trace_height_constraints = constraints;
    }

    /// Executes a program without chips and finds its trace heights, if it took one segment.
    pub fn execute_metered<I: Interpreter<F, VC>>(
        &self,
        exe: VmExe<F>,
        input: Streams<F>,
        interactions: &[usize],
    ) -> (r: Result<Option<Vec<u32>>, ExecutionError>)
        requires
            chips_take::<F, VC>(self.config, None),
        ensures
            exists|outcome: Result<MeteredOutcome, ExecutionError>|
                {
                    &&& #[trigger] metered::<F, VC, I>(
                        self.config,
                        exe,
                        interactions,
                        unlimited(),
                        input,
                        outcome,
                    )
                    &&& r == (match outcome {
                        Err(e) => Err(e),
                        Ok(outcome) => match outcome.spec_into_segments() {
                            Err(e) => Err(e),
                            Ok(segments) => Ok(spec_only_heights(segments@)),
                        },
                    })
                },
    {
        let interpreter = I::new(&self.config, exe);
        assert(interprets(self.config, exe, interpreter));
        let chip_complex = self.config.create_chip_complex().unwrap();
        let limits = MeterLimits {
            max_trace_height: None,
            max_cells: None,
            segment_check_insns: Some(u64::MAX),
        };
        let outcome = interpreter.execute_e2(&chip_complex, interactions, limits, input);
        assert(self.config.creates(Ok(chip_complex)));
        assert(metered::<F, VC, I>(
            self.config,
            exe,
            interactions,
            unlimited(),
            input,
            outcome,
        ));
        match outcome {
            Ok(outcome) => match outcome.into_segments() {
                Ok(segments) => Ok(only_heights(segments)),
                Err(e) => Err(e),
            },
            Err(e) => Err(e),
        }
    }

    /// An executor with the chips for a program.
    fn launch(&self, exe: &VmExe<F>, trace_heights: Option<&[u32]>) -> (r: TracegenSegment<
        F,
        VC::Executor,
    >)
        requires
            exe.program.step > 0,
            chips_take::<F, VC>(self.config, slice_view(trace_heights)),
        ensures
            exists|planned: VmChipComplex<F, VC::Executor>| #[trigger]
                set_up(self.config, *exe, None, slice_view(trace_heights), planned) && overrides(
                    planned,
                    r.chip_complex,
                    self.overridden_heights,
                ),
            r.chip_complex.config.same(&self.config.spec_system()),
            r.chip_complex.program.step > 0,
            r.trace_height_constraints@ == self.trace_height_constraints@,
    {
        let program = exe.program.clone();
        let chip_complex = create_and_initialize_chip_complex(
            &self.config,
            program,
            None,
            trace_heights,
        ).unwrap();
        let ghost planned = chip_complex;
        let mut segment = VmSegmentExecutor::new(
            chip_complex,
            copy_constraints(&self.trace_height_constraints),
            TracegenExecutionControl,
        );
        proof {
            lemma_set_up(
                self.config,
                *exe,
                program,
                None,
                slice_view(trace_heights),
                planned,
            );
        }
        if let Some(overridden_heights) = &self.overridden_heights {
            segment.set_override_trace_heights(overridden_heights.clone());
        }
        assert(overrides(planned, segment.chip_complex, self.overridden_heights));
        segment
    }

    /// Executes a program in a single segment.
    fn execute_impl(&self, exe: &VmExe<F>, input: Streams<F>, trace_heights: Option<&[u32]>) -> (r:
        Result<TracegenSegment<F, VC::Executor>, ExecutionError>)
        requires
            exe.program.step > 0,
            chips_take::<F, VC>(self.config, slice_view(trace_heights)),
        ensures
            self.ran(*exe, input, slice_view(trace_heights), r),
    {
        let rng = seed_from_u64(0);
        let mut segment = self.launch(exe, trace_heights);
        let ghost chips = segment.chip_complex;
        let mut exec_state = VmSegmentState::new(
            0,
            exe.pc_start,
            None,
            input,
            rng,
            TracegenCtx::default(),
        );
        let ghost first = exec_state;
        let executed = segment.execute_from_state(&mut exec_state);
        let ghost run = SegmentRun { chips, executor: segment, first, last: exec_state };
        proof {
            reveal(ran_single);
            law_tracegen_segment(
                segment.ctrl,
                chips,
                first,
                segment.chip_complex,
                exec_state,
                error_of(executed),
            );
            assert(runs_single(
                self.config,
                self.overridden_heights,
                *exe,
                input,
                slice_view(trace_heights),
                run,
                error_of(executed),
            ));
        }
        match executed {
            Ok(()) => Ok(segment),
            Err(e) => {
                assert(ran_single(
                    self.config,
                    self.overridden_heights,
                    *exe,
                    input,
                    slice_view(trace_heights),
                    segment,
                    Some(e),
                ));
                Err(e)
            },
        }
    }

    /// Executes a program and generates the input of its proof, to which `generate` gives the
    /// commitment.
    pub fn execute_and_generate<
        PI,
        P,
        G: Fn(TracegenSegment<F, VC::Executor>, &P) -> Result<PI, GenerationError>,
    >(
        &self,
        committed_exe: &VmCommittedExe<F, P>,
        input: Streams<F>,
        max_trace_heights: &[u32],
        generate: G,
    ) -> (r: Result<PI, GenerationError>)
        requires
            committed_exe.exe.program.step > 0,
            chips_take::<F, VC>(self.config, Some(max_trace_heights@)),
            forall|segment: TracegenSegment<F, VC::Executor>, program: &P|
                #![trigger call_requires(generate, (segment, program))]
                call_requires(generate, (segment, program)),
        ensures
            exists|executed: Result<TracegenSegment<F, VC::Executor>, ExecutionError>|
                {
                    &&& #[trigger] self.ran(
                        committed_exe.exe,
                        input,
                        Some(max_trace_heights@),
                        executed,
                    )
                    &&& match executed {
                        Ok(segment) => call_ensures(
                            generate,
                            (segment, &committed_exe.committed_program),
                            r,
                        ),
                        Err(e) => r == Err::<PI, GenerationError>(GenerationError::Execution(e)),
                    }
                },
    {
        let executed = self.execute_impl(&committed_exe.exe, input, Some(max_trace_heights));
        assert(self.ran(committed_exe.exe, input, Some(max_trace_heights@), executed));
        match executed {
            Ok(segment) => generate(segment, &committed_exe.committed_program),
            Err(e) => Err(GenerationError::Execution(e)),
        }
    }

    /// Executes a program and reads its trace heights and public values.
    pub fn execute_and_compute_heights<T: TraceMeasure<F, VC::Executor>>(
        &self,
        exe: &VmExe<F>,
        input: Streams<F>,
        max_trace_heights: &[u32],
        measure: &T,
    ) -> (r: Result<SingleSegmentVmExecutionResult<F>, ExecutionError>)
        requires
            exe.program.step > 0,
            chips_take::<F, VC>(self.config, Some(max_trace_heights@)),
        ensures
            exists|executed: Result<TracegenSegment<F, VC::Executor>, ExecutionError>|
                {
                    &&& #[trigger] self.ran(*exe, input, Some(max_trace_heights@), executed)
                    &&& match (executed, r) {
                        (Ok(segment), Ok(result)) => measures(
                            *measure,
                            segment.chip_complex,
                            result,
                        ),
                        (Err(e), Err(f)) => e == f,
                        _ => false,
                    }
                },
    {
        let executed = self.execute_impl(exe, input, Some(max_trace_heights));
        assert(self.ran(*exe, input, Some(max_trace_heights@), executed));
        match executed {
            Ok(segment) => Ok(compute_heights(measure, segment.chip_complex)),
            Err(e) => Err(e),
        }
    }
}

/// The values of a slice that may be missing.
pub open spec fn slice_view(s: Option<&[u32]>) -> Option<Seq<u32>> {
    match s {
        Some(s) => Some(s@),
        None => None,
    }
}

/// `result` is what `measure` reads off the chips once their memory is closed. Public values are
/// read only where they have a chip.
pub open spec fn measures<F, X, T: TraceMeasure<F, X>>(
    measure: T,
    complex: VmChipComplex<F, X>,
    result: SingleSegmentVmExecutionResult<F>,
) -> bool {
    exists|closed: VmChipComplex<F, X>| #[trigger]
        closes(measure, complex, closed) && {
            &&& call_ensures(T::current_trace_heights, (&measure, &closed), result.air_heights)
            &&& call_ensures(
                T::get_internal_trace_heights,
                (&measure, &closed),
                result.vm_heights,
            )
            &&& if complex.config.spec_has_public_values_chip() {
                call_ensures(
                    T::get_custom_public_values,
                    (&measure, &closed),
                    result.public_values,
                )
            } else {
                result.public_values@ == Seq::<Option<F>>::empty()
            }
        }
}

/// `closed` may come of closing the memory of the chips.
pub open spec fn closes<F, X, T: TraceMeasure<F, X>>(
    measure: T,
    complex: VmChipComplex<F, X>,
    closed: VmChipComplex<F, X>,
) -> bool {
    call_ensures(T::finalize_memory, (&measure, complex), closed)
}

/// Reads trace heights and public values off chips.
fn compute_heights<F, X, T: TraceMeasure<F, X>>(measure: &T, complex: VmChipComplex<F, X>) -> (r:
    SingleSegmentVmExecutionResult<F>)
    ensures
        measures(*measure, complex, r),
{
    let has_public_values = complex.config.has_public_values_chip();
    let closed = measure.finalize_memory(complex);
    assert(closes(*measure, complex, closed));
    let air_heights = measure.current_trace_heights(&closed);
    let vm_heights = measure.get_internal_trace_heights(&closed);
    let public_values = if has_public_values {
        measure.get_custom_public_values(&closed)
    } else {
        Vec::new()
    };
    SingleSegmentVmExecutionResult { public_values, air_heights, vm_heights }
}

} // verus!
