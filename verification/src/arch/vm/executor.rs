//! The execution of programs over segments.
use crate::arch::error::{error_of, ExecutionError};
use crate::arch::execution_mode::e1::{E1Ctx, E1View};
use crate::arch::execution_mode::E1ExecutionCtx;
use crate::arch::segment::VmSegmentState;
use crate::arch::segment_executor::{
    exit_code_of, law_tracegen_segment, segment_executes, VmSegmentExecutor,
};
use crate::arch::vm::complex::{
    create_and_initialize_chip_complex, heights_usable, initialized, VmChipComplex,
    VmComplexTraceHeights,
};
use crate::arch::vm::config::{SystemConfig, VmConfig};
use crate::arch::vm::constraint::copy_constraints;
use crate::arch::vm::control::{
    begin_state, end_state, InstructionExecutor, TracegenCtx, TracegenExecutionControl,
};
use crate::arch::vm::exe::{Program, VmExe};
use crate::arch::vm::interpreter::{Interpreter, MeterLimits, MeteredOutcome, Segment};
use crate::arch::vm::report::{reportable, AccessReport};
use crate::arch::vm::state::VmState;
use crate::arch::vm::streams::Streams;
use crate::field::PrimeField32;
use openvm_stark_backend::keygen::types::LinearConstraint;
use rand::rngs::StdRng;
use std::marker::PhantomData;
use vstd::prelude::*;

verus! {

/// Executes programs over segments.
pub struct VmExecutor<F, VC> {
    pub config: VC,
    pub overridden_heights: Option<VmComplexTraceHeights>,
    pub trace_height_constraints: Vec<LinearConstraint>,
    pub marker: PhantomData<F>,
}

/// The executor of a segment whose trace is generated.
pub type TracegenSegment<F, X> = VmSegmentExecutor<F, X, TracegenExecutionControl>;

/// A segment that was executed, and the state that it left.
pub struct VmExecutorOneSegmentResult<F, X> {
    pub segment: TracegenSegment<F, X>,
    /// The state from which the next segment starts, if the segment stopped.
    pub next_state: Option<VmState<F>>,
}

/// The state of a segment whose trace is generated.
pub type TracegenState<F> = VmSegmentState<F, TracegenCtx>;

/// A segment that was executed.
pub ghost struct SegmentRun<F, X> {
    /// The chips as they were set up.
    pub chips: VmChipComplex<F, X>,
    pub executor: TracegenSegment<F, X>,
    /// The state in which the segment started.
    pub first: TracegenState<F>,
    /// The state in which it stopped.
    pub last: TracegenState<F>,
}

/// What one segment hands to the next.
pub ghost struct Handover<F> {
    pub instret: u64,
    pub pc: u32,
    pub memory: Seq<Seq<u32>>,
    pub input: Streams<F>,
    pub rng: StdRng,
}

/// What a state hands to a segment.
pub open spec fn handover<F>(state: VmState<F>) -> Handover<F> {
    Handover {
        instret: state.instret,
        pc: state.pc,
        memory: state.memory@,
        input: state.input,
        rng: state.rng,
    }
}

/// The state in which a segment of `num_insns` instructions starts.
pub open spec fn launches<F>(from: Handover<F>, num_insns: u64, first: TracegenState<F>) -> bool {
    &&& first.instret == from.instret
    &&& first.pc == from.pc
    &&& first.memory@ == Seq::<Seq<u32>>::empty()
    &&& first.streams == from.input
    &&& first.rng == from.rng
    &&& first.exit_code == Ok::<Option<u32>, ExecutionError>(None)
    &&& first.ctx.instret_end matches Some(end) && end == from.instret + num_insns
}

impl<F: PrimeField32, X: InstructionExecutor<F>> SegmentRun<F, X> {
    /// What the segment hands to the next.
    pub open spec fn leaves(&self) -> Handover<F> {
        Handover {
            instret: self.last.instret,
            pc: self.last.pc,
            memory: self.executor.chip_complex.memory@,
            input: self.last.streams,
            rng: self.last.rng,
        }
    }

    /// The segment started from what was handed to it.
    pub open spec fn starts(&self, from: Handover<F>, segment: Segment) -> bool {
        &&& launches(from, segment.num_insns, self.first)
        &&& self.executor.chip_complex.begin == Some(begin_state(from.pc))
        &&& self.executor.chip_complex.initial_memory is Some
        &&& self.executor.chip_complex.initial_memory->0@ == from.memory
    }

    /// The segment executed its instructions until it stopped. With continuations it did so no
    /// later than planned, and unless the program ended no earlier.
    pub open spec fn ends(&self, segment: Segment) -> bool {
        let complex = self.executor.chip_complex;
        let planned = self.first.instret + segment.num_insns;
        &&& segment_executes(
            self.executor.ctrl,
            self.chips,
            self.first,
            complex,
            self.last,
            None,
        )
        &&& complex.end == Some(end_state(self.last.pc, exit_code_of(self.last)))
        &&& complex.same_layout(&self.chips)
        &&& self.first.instret <= self.last.instret
        &&& complex.config.continuation_enabled ==> self.last.instret <= planned
        &&& exit_code_of(self.last) is None ==> complex.config.continuation_enabled
            && self.last.instret == planned
    }
}

/// The chips are those of the configuration, with the program, the memory and the trace heights
/// set.
#[verifier::opaque]
pub open spec fn set_up<F: PrimeField32, VC: VmConfig<F>>(
    config: VC,
    exe: VmExe<F>,
    memory: Option<Seq<Seq<u32>>>,
    heights: Option<Seq<u32>>,
    chips: VmChipComplex<F, VC::Executor>,
) -> bool {
    exists|c: VmChipComplex<F, VC::Executor>| #[trigger]
        config.creates(Ok(c)) && initialized(
            c,
            chips,
            config.spec_system().profiling,
            exe.program,
            memory,
            heights,
        )
}

/// Chips that come of [`create_and_initialize_chip_complex`] are set up.
pub(crate) proof fn lemma_set_up<F: PrimeField32, VC: VmConfig<F>>(
    config: VC,
    exe: VmExe<F>,
    program: Program<F>,
    memory: Option<Seq<Seq<u32>>>,
    heights: Option<Seq<u32>>,
    chips: VmChipComplex<F, VC::Executor>,
)
    requires
        program.same(&exe.program),
        exists|c: VmChipComplex<F, VC::Executor>| #[trigger]
            config.creates(Ok(c)) && initialized(
                c,
                chips,
                config.spec_system().profiling,
                program,
                memory,
                heights,
            ),
    ensures
        set_up(config, exe, memory, heights, chips),
{
    reveal(set_up);
    let created = choose|c: VmChipComplex<F, VC::Executor>| #[trigger]
        config.creates(Ok(c)) && initialized(
            c,
            chips,
            config.spec_system().profiling,
            program,
            memory,
            heights,
        );
    assert(initialized(
        created,
        chips,
        config.spec_system().profiling,
        exe.program,
        memory,
        heights,
    ));
}

/// A segment was executed as planned, from a state that the one before it left.
#[verifier::opaque]
pub open spec fn link<F: PrimeField32, VC: VmConfig<F>>(
    vm: VmExecutor<F, VC>,
    exe: VmExe<F>,
    from: Handover<F>,
    segment: Segment,
    run: SegmentRun<F, VC::Executor>,
) -> bool {
    &&& set_up(vm.config, exe, Some(from.memory), Some(segment.trace_heights@), run.chips)
    &&& run.starts(from, segment)
    &&& run.ends(segment)
    &&& run.executor.chip_complex.config.same(&vm.config.spec_system())
    &&& run.executor.trace_height_constraints@ == vm.trace_height_constraints@
}

/// A segment fails with an error: the count of instructions at its end cannot be held, or an
/// instruction of its execution fails.
#[verifier::opaque]
pub open spec fn breaks<F: PrimeField32, VC: VmConfig<F>>(
    vm: VmExecutor<F, VC>,
    exe: VmExe<F>,
    from: Handover<F>,
    segment: Segment,
    e: ExecutionError,
) -> bool {
    ||| e == ExecutionError::InstretOverflow && from.instret + segment.num_insns > u64::MAX
    ||| exists|run: SegmentRun<F, VC::Executor>| #[trigger]
        fails_in(vm, exe, from, segment, run, e)
}

/// A segment that was launched from what was handed to it fails with an error.
pub open spec fn fails_in<F: PrimeField32, VC: VmConfig<F>>(
    vm: VmExecutor<F, VC>,
    exe: VmExe<F>,
    from: Handover<F>,
    segment: Segment,
    run: SegmentRun<F, VC::Executor>,
    e: ExecutionError,
) -> bool {
    &&& set_up(vm.config, exe, Some(from.memory), Some(segment.trace_heights@), run.chips)
    &&& launches(from, segment.num_insns, run.first)
    &&& run.chips.config.same(&vm.config.spec_system())
    &&& segment_executes(
        run.executor.ctrl,
        run.chips,
        run.first,
        run.executor.chip_complex,
        run.last,
        Some(e),
    )
}

/// The state from which the segment `i` starts.
pub open spec fn before_run<F: PrimeField32, X: InstructionExecutor<F>>(
    start: Handover<F>,
    runs: Seq<SegmentRun<F, X>>,
    i: int,
) -> Handover<F> {
    if i <= 0 {
        start
    } else {
        runs[i - 1].leaves()
    }
}

/// The segments were executed one after the other: each starts where the one before it ended.
pub open spec fn chained<F: PrimeField32, VC: VmConfig<F>>(
    vm: VmExecutor<F, VC>,
    exe: VmExe<F>,
    start: Handover<F>,
    segments: Seq<Segment>,
    runs: Seq<SegmentRun<F, VC::Executor>>,
) -> bool {
    &&& runs.len() <= segments.len()
    &&& forall|i: int|
        0 <= i < runs.len() ==> link(
            vm,
            exe,
            before_run(start, runs, i),
            segments[i],
            #[trigger] runs[i],
        )
}

/// The segment after those that were executed may fail with an error.
pub open spec fn breaks_after<F: PrimeField32, VC: VmConfig<F>>(
    vm: VmExecutor<F, VC>,
    exe: VmExe<F>,
    start: Handover<F>,
    segments: Seq<Segment>,
    runs: Seq<SegmentRun<F, VC::Executor>>,
    e: ExecutionError,
) -> bool {
    &&& runs.len() < segments.len()
    &&& breaks(
        vm,
        exe,
        before_run(start, runs, runs.len() as int),
        segments[runs.len() as int],
        e,
    )
}

/// One more segment extends the chain.
proof fn lemma_chained_push<F: PrimeField32, VC: VmConfig<F>>(
    vm: VmExecutor<F, VC>,
    exe: VmExe<F>,
    start: Handover<F>,
    segments: Seq<Segment>,
    runs: Seq<SegmentRun<F, VC::Executor>>,
    run: SegmentRun<F, VC::Executor>,
)
    requires
        chained(vm, exe, start, segments, runs),
        runs.len() < segments.len(),
        link(
            vm,
            exe,
            before_run(start, runs, runs.len() as int),
            segments[runs.len() as int],
            run,
        ),
    ensures
        chained(vm, exe, start, segments, runs.push(run)),
{
    let next = runs.push(run);
    assert forall|i: int| 0 <= i < next.len() implies link(
        vm,
        exe,
        before_run(start, next, i),
        segments[i],
        #[trigger] next[i],
    ) by {
        if i < runs.len() {
            assert(next[i] == runs[i]);
        }
        if i > 0 {
            assert(next[i - 1] == runs[i - 1]);
        }
    }
}

/// The segments follow each other, from an instruction count on.
pub open spec fn contiguous(segments: Seq<Segment>, instret: u64) -> bool {
    &&& segments.len() > 0
    &&& segments[0].instret_start == instret
    &&& forall|i: int|
        0 <= i < segments.len() - 1 ==> (#[trigger] segments[i + 1]).instret_start
            == segments[i].instret_start + segments[i].num_insns
}

/// Chips can be made of the configuration, and take the given heights.
pub open spec fn chips_take<F: PrimeField32, VC: VmConfig<F>>(
    config: VC,
    heights: Option<Seq<u32>>,
) -> bool {
    &&& forall|r: Result<VmChipComplex<F, VC::Executor>, _>| #[trigger] config.creates(r) ==> r is Ok
    &&& heights matches Some(max) ==> forall|c: VmChipComplex<F, VC::Executor>| #[trigger]
        config.creates(Ok(c)) ==> heights_usable(&c, max)
}

/// The program, the plan and the chips allow execution from an instruction count on.
pub open spec fn executable<F: PrimeField32, VC: VmConfig<F>>(
    config: VC,
    exe: VmExe<F>,
    instret: u64,
    segments: Seq<Segment>,
) -> bool {
    &&& exe.program.step > 0
    &&& contiguous(segments, instret)
    &&& forall|i: int|
        0 <= i < segments.len() ==> chips_take::<F, VC>(
            config,
            Some((#[trigger] segments[i]).trace_heights@),
        )
}

/// `r` is the outcome of plain execution that left `state`.
pub open spec fn e1_result<F>(
    state: VmSegmentState<F, E1Ctx>,
    r: (VmState<F>, Option<AccessReport>),
) -> bool {
    &&& r.0.instret == state.instret
    &&& r.0.pc == state.pc
    &&& r.0.memory@ == state.memory@
    &&& r.0.input == state.streams
    &&& r.0.rng == state.rng
    &&& match r.1 {
        Some(report) => report.reports(state.ctx.ctx_view()) && report.loadstore_within_all(),
        None => !reportable(state.ctx.ctx_view()),
    }
}

/// The state that plain execution leaves for what comes after it, and how often it accessed
/// registers and memory.
pub fn finish_e1<F>(state: VmSegmentState<F, E1Ctx>) -> (r: (VmState<F>, Option<AccessReport>))
    ensures
        e1_result(state, r),
{
    let report = AccessReport::new(&state.ctx);
    (
        VmState {
            instret: state.instret,
            pc: state.pc,
            memory: state.memory.memory,
            input: state.streams,
            rng: state.rng,
        },
        report,
    )
}

/// An interpreter of a program on the machine of a configuration.
pub open spec fn interprets<F, VC, I: Interpreter<F, VC>>(
    config: VC,
    exe: VmExe<F>,
    interpreter: I,
) -> bool {
    call_ensures(I::new, (&config, exe), interpreter)
}

/// An outcome of an interpreter of the program on a fresh context that stops after `num_insns`
/// instructions.
pub open spec fn interpreted<F, VC, I: Interpreter<F, VC>>(
    config: VC,
    exe: VmExe<F>,
    num_insns: Option<u64>,
    inputs: Streams<F>,
    r: Result<VmSegmentState<F, E1Ctx>, ExecutionError>,
) -> bool {
    exists|interpreter: I, ctx: E1Ctx|
        {
            &&& #[trigger] interprets(config, exe, interpreter)
            &&& #[trigger] ctx.ctx_view() == (E1View {
                instret_end: match num_insns {
                    Some(end) => end,
                    None => u64::MAX,
                },
                stats: Map::empty(),
                loadstore_stats: Map::empty(),
            })
            &&& call_ensures(I::execute, (&interpreter, ctx, inputs), r)
        }
}

impl<F: PrimeField32, VC: VmConfig<F>> VmExecutor<F, VC> {
    pub fn new(config: VC) -> (r: Self)
        ensures
            r.config == config,
            r.overridden_heights is None,
            r.trace_height_constraints@ == Seq::<LinearConstraint>::empty(),
    {
        Self::new_with_overridden_trace_heights(config, None)
    }

    pub fn set_override_trace_heights(&mut self, overridden_heights: VmComplexTraceHeights)
        ensures
            *final(self) == (VmExecutor {
                overridden_heights: Some(overridden_heights),
                ..*old(self)
            }),
    {
        self.overridden_heights = Some(overridden_heights);
    }

    pub fn new_with_overridden_trace_heights(
        config: VC,
        overridden_heights: Option<VmComplexTraceHeights>,
    ) -> (r: Self)
        ensures
            r.config == config,
            r.overridden_heights == overridden_heights,
            r.trace_height_constraints@ == Seq::<LinearConstraint>::empty(),
    {
        VmExecutor {
            config,
            overridden_heights,
            trace_height_constraints: Vec::new(),
            marker: PhantomData,
        }
    }

    pub fn continuation_enabled(&self) -> (r: bool)
        ensures
            r == self.config.spec_system().continuation_enabled,
    {
        self.config.system().continuation_enabled
    }

    pub fn set_trace_height_constraints(&mut self, constraints: Vec<LinearConstraint>)
        ensures
            *final(self) == (VmExecutor { trace_height_constraints: constraints, ..*old(self) }),
    {
        self.trace_height_constraints = constraints;
    }

    /// Executes a program without chips, up to `num_insns` instructions, and reports how often it
    /// accessed registers and memory.
    pub fn execute_e1<I: Interpreter<F, VC>>(
        &self,
        exe: VmExe<F>,
        inputs: Streams<F>,
        num_insns: Option<u64>,
    ) -> (r: Result<(VmState<F>, Option<AccessReport>), ExecutionError>)
        ensures
            exists|outcome: Result<VmSegmentState<F, E1Ctx>, ExecutionError>|
                {
                    &&& #[trigger] interpreted::<F, VC, I>(
                        self.config,
                        exe,
                        num_insns,
                        inputs,
                        outcome,
                    )
                    &&& match outcome {
                        Err(e) => r == Err::<(VmState<F>, Option<AccessReport>), ExecutionError>(e),
                        Ok(state) => r is Ok && e1_result(state, r->Ok_0),
                    }
                },
            r is Ok && (r->Ok_0).1 is Some ==> (r->Ok_0).1->0.loadstore_within_all(),
    {
        let interpreter = I::new(&self.config, exe);
        assert(interprets(self.config, exe, interpreter));
        let ctx = E1Ctx::new(num_insns);
        let ghost view = ctx.ctx_view();
        let ghost fresh = ctx;
        let outcome = interpreter.execute(ctx, inputs);
        assert(fresh.ctx_view() == view);
        assert(interpreted::<F, VC, I>(self.config, exe, num_insns, inputs, outcome));
        match outcome {
            Ok(state) => Ok(finish_e1(state)),
            Err(e) => Err(e),
        }
    }

    /// Executes a program without chips and finds its segments.
    pub fn execute_metered<I: Interpreter<F, VC>>(
        &self,
        exe: VmExe<F>,
        input: Streams<F>,
        interactions: &[usize],
    ) -> (r: Result<Vec<Segment>, ExecutionError>)
        requires
            chips_take::<F, VC>(self.config, None),
        ensures
            exists|outcome: Result<MeteredOutcome, ExecutionError>|
                {
                    &&& #[trigger] metered::<F, VC, I>(
                        self.config,
                        exe,
                        interactions,
                        spec_limits(self.config.spec_system()),
                        input,
                        outcome,
                    )
                    &&& r == (match outcome {
                        Err(e) => Err(e),
                        Ok(outcome) => outcome.spec_into_segments(),
                    })
                },
    {
        let interpreter = I::new(&self.config, exe);
        assert(interprets(self.config, exe, interpreter));
        let chip_complex = self.config.create_chip_complex().unwrap();
        let limits = self.config.system().segmentation_limits;
        let limits = MeterLimits {
            max_trace_height: Some(limits.max_trace_height as u32),
            max_cells: Some(limits.max_cells),
            segment_check_insns: None,
        };
        let outcome = interpreter.execute_e2(&chip_complex, interactions, limits, input);
        assert(self.config.creates(Ok(chip_complex)));
        assert(metered::<F, VC, I>(
            self.config,
            exe,
            interactions,
            spec_limits(self.config.spec_system()),
            input,
            outcome,
        ));
        match outcome {
            Ok(outcome) => outcome.into_segments(),
            Err(e) => Err(e),
        }
    }

    /// Executes one segment from a state.
    fn execute_segment(&self, exe: &VmExe<F>, state: VmState<F>, segment: &Segment) -> (r: Result<
        VmExecutorOneSegmentResult<F, VC::Executor>,
        ExecutionError,
    >)
        requires
            exe.program.step > 0,
            chips_take::<F, VC>(self.config, Some(segment.trace_heights@)),
        ensures
            match r {
                Ok(one) => {
                    &&& one.next_state is Some
                    &&& exists|run: SegmentRun<F, VC::Executor>|
                        {
                            &&& #[trigger] link(*self, *exe, handover(state), *segment, run)
                            &&& run.executor == one.segment
                            &&& run.leaves() == handover(one.next_state->0)
                        }
                },
                Err(e) => breaks(*self, *exe, handover(state), *segment, e),
            },
    {
        let ghost start = handover(state);
        let program = exe.program.clone();
        let chip_complex = create_and_initialize_chip_complex(
            &self.config,
            program,
            Some(state.memory),
            Some(segment.trace_heights.as_slice()),
        ).unwrap();
        let ghost complex = chip_complex;
        let mut executor = VmSegmentExecutor::new(
            chip_complex,
            copy_constraints(&self.trace_height_constraints),
            TracegenExecutionControl,
        );
        let instret_end = match state.instret.checked_add(segment.num_insns) {
            Some(end) => end,
            None => {
                assert(breaks(
                    *self,
                    *exe,
                    start,
                    *segment,
                    ExecutionError::InstretOverflow,
                )) by {
                    reveal(breaks);
                }
                return Err(ExecutionError::InstretOverflow);
            },
        };
        let ctx = TracegenCtx::new(Some(instret_end));
        let mut exec_state = VmSegmentState::new(
            state.instret,
            state.pc,
            None,
            state.input,
            state.rng,
            ctx,
        );
        let ghost first = exec_state;
        let executed = executor.execute_from_state(&mut exec_state);
        let ghost run = SegmentRun { chips: complex, executor, first, last: exec_state };
        proof {
            law_tracegen_segment(
                executor.ctrl,
                complex,
                first,
                executor.chip_complex,
                exec_state,
                error_of(executed),
            );
            lemma_set_up(
                self.config,
                *exe,
                program,
                Some(start.memory),
                Some(segment.trace_heights@),
                complex,
            );
        }
        match executed {
            Ok(()) => {},
            Err(e) => {
                assert(breaks(*self, *exe, start, *segment, e)) by {
                    reveal(breaks);
                    assert(fails_in(*self, *exe, start, *segment, run, e));
                }
                return Err(e);
            },
        }
        let next = VmState {
            instret: exec_state.instret,
            pc: exec_state.pc,
            memory: executor.chip_complex.memory.clone(),
            input: exec_state.streams,
            rng: exec_state.rng,
        };
        assert(link(*self, *exe, start, *segment, run)) by {
            reveal(link);
        }
        Ok(VmExecutorOneSegmentResult { segment: executor, next_state: Some(next) })
    }

    /// Executes the planned segments from a state, one after the other, and gives each to `f` with
    /// its index. `map_err` takes the errors of execution.
    pub fn execute_and_then_from_state<
        R,
        E,
        G: Fn(usize, TracegenSegment<F, VC::Executor>) -> Result<R, E>,
        M: Fn(ExecutionError) -> E,
    >(
        &self,
        exe: &VmExe<F>,
        state: VmState<F>,
        segments: &[Segment],
        f: G,
        map_err: M,
    ) -> (r: Result<Vec<R>, E>)
        requires
            executable(self.config, *exe, state.instret, segments@),
            forall|i: usize, segment: TracegenSegment<F, VC::Executor>|
                #![trigger call_requires(f, (i, segment))]
                call_requires(f, (i, segment)),
            forall|e: ExecutionError| #![trigger call_requires(map_err, (e,))] call_requires(map_err, (e,)),
        ensures
            r matches Ok(results) ==> results@.len() == segments@.len(),
            r matches Ok(results) ==> exists|runs: Seq<SegmentRun<F, VC::Executor>>|
                {
                    &&& runs.len() == segments@.len()
                    &&& #[trigger] chained(*self, *exe, handover(state), segments@, runs)
                    &&& forall|i: int|
                        0 <= i < runs.len() ==> call_ensures(
                            f,
                            (i as usize, (#[trigger] runs[i]).executor),
                            Ok(results@[i]),
                        )
                },
            r is Err ==> exists|runs: Seq<SegmentRun<F, VC::Executor>>| #[trigger]
                chained(*self, *exe, handover(state), segments@, runs) && gives_up(
                    *self,
                    *exe,
                    handover(state),
                    segments@,
                    runs,
                    f,
                    map_err,
                    r->Err_0,
                ),
    {
        let mut results: Vec<R> = Vec::new();
        let ghost start = handover(state);
        let ghost mut runs: Seq<SegmentRun<F, VC::Executor>> = Seq::empty();
        let mut current = state;
        for i in 0..segments.len()
            invariant
                exe.program.step > 0,
                forall|i: int|
                    0 <= i < segments@.len() ==> chips_take::<F, VC>(
                        self.config,
                        Some((#[trigger] segments@[i]).trace_heights@),
                    ),
                forall|i: usize, segment: TracegenSegment<F, VC::Executor>|
                    #![trigger call_requires(f, (i, segment))]
                    call_requires(f, (i, segment)),
                forall|e: ExecutionError|
                    #![trigger call_requires(map_err, (e,))]
                    call_requires(map_err, (e,)),
                results@.len() == i,
                runs.len() == i,
                chained(*self, *exe, start, segments@, runs),
                start == handover(state),
                handover(current) == before_run(start, runs, i as int),
                forall|j: int|
                    0 <= j < i ==> call_ensures(
                        f,
                        (j as usize, (#[trigger] runs[j]).executor),
                        Ok(results@[j]),
                    ),
        {
            let ghost from = current;
            let ghost before = runs;
            match self.execute_segment(exe, current, &segments[i]) {
                Ok(one) => {
                    let executor = one.segment;
                    let next = one.next_state.unwrap();
                    proof {
                        let run = choose|run: SegmentRun<F, VC::Executor>|
                            {
                                &&& #[trigger] link(
                                    *self,
                                    *exe,
                                    handover(from),
                                    segments@[i as int],
                                    run,
                                )
                                &&& run.executor == executor
                                &&& run.leaves() == handover(next)
                            };
                        lemma_chained_push(*self, *exe, start, segments@, runs, run);
                        runs = runs.push(run);
                    }
                    current = next;
                    match f(i, executor) {
                        Ok(result) => results.push(result),
                        Err(e) => {
                            let r: Result<Vec<R>, E> = Err(e);
                            assert(chained(*self, *exe, start, segments@, runs));
                            assert(rejects(f, i, runs.last().executor, r->Err_0));
                            assert(takes_all::<F, VC, R, E, G>(f, runs, i as int)) by {
                                lemma_takes_all::<F, VC, R, E, G>(f, runs, results@);
                            }
                            return r;
                        },
                    }
                    assert forall|j: int| 0 <= j < i + 1 implies call_ensures(
                        f,
                        (j as usize, (#[trigger] runs[j]).executor),
                        Ok(results@[j]),
                    ) by {
                        if j < i {
                            assert(runs[j] == before[j]);
                        }
                    }
                },
                Err(e) => {
                    let error = map_err(e);
                    let r: Result<Vec<R>, E> = Err(error);
                    assert(chained(*self, *exe, start, segments@, runs));
                    assert(maps_error(map_err, e, r->Err_0));
                    assert(takes_all::<F, VC, R, E, G>(f, runs, i as int)) by {
                        lemma_takes_all::<F, VC, R, E, G>(f, runs, results@);
                    }
                    return r;
                },
            }
        }
        Ok(results)
    }
}

/// `map_err` may make `error` of the cause.
pub open spec fn maps_error<E, M: Fn(ExecutionError) -> E>(
    map_err: M,
    cause: ExecutionError,
    error: E,
) -> bool {
    call_ensures(map_err, (cause,), error)
}

/// `f` may answer the segment `i` with the error.
pub open spec fn rejects<F, X, R, E, G: Fn(usize, TracegenSegment<F, X>) -> Result<R, E>>(
    f: G,
    i: usize,
    segment: TracegenSegment<F, X>,
    error: E,
) -> bool {
    call_ensures(f, (i, segment), Err(error))
}

/// `f` may answer the segment `i` with the result.
pub open spec fn takes<F, X, R, E, G: Fn(usize, TracegenSegment<F, X>) -> Result<R, E>>(
    f: G,
    i: usize,
    segment: TracegenSegment<F, X>,
    result: R,
) -> bool {
    call_ensures(f, (i, segment), Ok(result))
}

/// `f` may answer each of the first `k` segments with a result.
pub open spec fn takes_all<
    F: PrimeField32,
    VC: VmConfig<F>,
    R,
    E,
    G: Fn(usize, TracegenSegment<F, VC::Executor>) -> Result<R, E>,
>(f: G, runs: Seq<SegmentRun<F, VC::Executor>>, k: int) -> bool {
    forall|i: int|
        0 <= i < k ==> exists|result: R| #[trigger]
            takes(f, i as usize, (#[trigger] runs[i]).executor, result)
}

/// Segments whose results are known were answered with them.
proof fn lemma_takes_all<
    F: PrimeField32,
    VC: VmConfig<F>,
    R,
    E,
    G: Fn(usize, TracegenSegment<F, VC::Executor>) -> Result<R, E>,
>(f: G, runs: Seq<SegmentRun<F, VC::Executor>>, results: Seq<R>)
    requires
        results.len() <= runs.len(),
        forall|i: int|
            0 <= i < results.len() ==> call_ensures(
                f,
                (i as usize, (#[trigger] runs[i]).executor),
                Ok(results[i]),
            ),
    ensures
        takes_all::<F, VC, R, E, G>(f, runs, results.len() as int),
{
    assert forall|i: int| 0 <= i < results.len() implies exists|result: R| #[trigger]
        takes(f, i as usize, (#[trigger] runs[i]).executor, result) by {
        assert(takes(f, i as usize, runs[i].executor, results[i]));
    }
}

/// The execution of segments ends with an error: `f` took all segments before, and the next one
/// fails, or `f` refuses it.
pub open spec fn gives_up<
    F: PrimeField32,
    VC: VmConfig<F>,
    R,
    E,
    G: Fn(usize, TracegenSegment<F, VC::Executor>) -> Result<R, E>,
    M: Fn(ExecutionError) -> E,
>(
    vm: VmExecutor<F, VC>,
    exe: VmExe<F>,
    start: Handover<F>,
    segments: Seq<Segment>,
    runs: Seq<SegmentRun<F, VC::Executor>>,
    f: G,
    map_err: M,
    e: E,
) -> bool {
    ||| {
        &&& takes_all::<F, VC, R, E, G>(f, runs, runs.len() as int)
        &&& exists|cause: ExecutionError| #[trigger]
            maps_error(map_err, cause, e) && breaks_after(vm, exe, start, segments, runs, cause)
    }
    ||| {
        &&& runs.len() > 0
        &&& takes_all::<F, VC, R, E, G>(f, runs, runs.len() - 1)
        &&& rejects(f, (runs.len() - 1) as usize, runs.last().executor, e)
    }
}

/// The limits of a configuration; of the trace height only the low 32 bits count.
pub open spec fn spec_limits(config: SystemConfig) -> MeterLimits {
    MeterLimits {
        max_trace_height: Some(config.segmentation_limits.max_trace_height as u32),
        max_cells: Some(config.segmentation_limits.max_cells),
        segment_check_insns: None,
    }
}

/// An outcome of metered execution of the program, with chips of the configuration.
pub open spec fn metered<F: PrimeField32, VC: VmConfig<F>, I: Interpreter<F, VC>>(
    config: VC,
    exe: VmExe<F>,
    interactions: &[usize],
    limits: MeterLimits,
    inputs: Streams<F>,
    r: Result<MeteredOutcome, ExecutionError>,
) -> bool {
    exists|interpreter: I, c: VmChipComplex<F, VC::Executor>|
        {
            &&& #[trigger] interprets(config, exe, interpreter)
            &&& #[trigger] config.creates(Ok(c))
            &&& call_ensures(
                I::execute_e2::<VC::Executor>,
                (&interpreter, &c, interactions, limits, inputs),
                r,
            )
        }
}

} // verus!
