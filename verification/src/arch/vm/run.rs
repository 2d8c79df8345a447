//! Runs of whole programs.
use crate::arch::error::ExecutionError;
use crate::arch::vm::complex::ConnectorState;
use crate::arch::vm::config::VmConfig;
use crate::arch::vm::exe::VmExe;
use crate::arch::vm::executor::{
    breaks_after, chained, executable, gives_up, handover, link, Handover, SegmentRun,
    TracegenSegment, VmExecutor,
};
use crate::arch::vm::exit::{check_exit_code, ExitCode};
use crate::arch::vm::interpreter::Segment;
use crate::arch::vm::rng::seeded;
use crate::arch::vm::state::{create_initial_state, holds_image, VmState};
use crate::arch::vm::streams::Streams;
use crate::field::PrimeField32;
use crate::system::memory::MemoryImage;
use vstd::prelude::*;

verus! {

/// Why no proof input can be generated.
#[derive(Clone, Copy, Debug, PartialEq, Eq, Structural)]
pub enum GenerationError {
    /// The trace heights violate constraints.
    TraceHeightsLimitExceeded,
    Execution(ExecutionError),
}

impl vstd::std_specs::convert::FromSpecImpl<ExecutionError> for GenerationError {
    open spec fn obeys_from_spec() -> bool {
        true
    }

    open spec fn from_spec(e: ExecutionError) -> Self {
        GenerationError::Execution(e)
    }
}

impl From<ExecutionError> for GenerationError {
    fn from(e: ExecutionError) -> (r: Self) {
        GenerationError::Execution(e)
    }
}

/// What a run gives to the prover: `PI` is the input of the proof of a segment.
#[derive(Debug)]
pub struct VmExecutorResult<PI> {
    pub per_segment: Vec<PI>,
    /// The memory at the end, where public values live if it is persistent.
    pub final_memory: Option<MemoryImage>,
}

/// Whether a run that ended in a state was successful.
pub open spec fn spec_check_end_state(end_state: ConnectorState) -> Result<(), ExecutionError> {
    if end_state.is_terminate != 1 {
        Err(ExecutionError::DidNotTerminate)
    } else if end_state.exit_code != ExitCode::Success.spec_code() {
        Err(ExecutionError::FailedWithExitCode(end_state.exit_code))
    } else {
        Ok(())
    }
}

/// Fails unless the program ended with success.
pub fn check_end_state(end_state: ConnectorState) -> (r: Result<(), ExecutionError>)
    ensures
        r == spec_check_end_state(end_state),
{
    if end_state.is_terminate != 1 {
        return Err(ExecutionError::DidNotTerminate);
    }
    check_exit_code(end_state.exit_code)
}

/// `r` is what a run answers whose last segment is `last`.
pub open spec fn answers<F, X>(
    last: TracegenSegment<F, X>,
    r: Result<Option<MemoryImage>, ExecutionError>,
) -> bool {
    let complex = last.chip_complex;
    &&& complex.end is Some
    &&& match (spec_check_end_state(complex.end->0), r) {
        (Ok(_), Ok(Some(memory))) => memory@ == complex.memory@,
        (Err(e), Err(f)) => e == f,
        _ => false,
    }
}

/// `r` is what the execution of the planned segments from a state answers: the executors of all
/// segments, or the error of the one that failed.
pub open spec fn executes_all<F: PrimeField32, VC: VmConfig<F>>(
    vm: VmExecutor<F, VC>,
    exe: VmExe<F>,
    start: Handover<F>,
    segments: Seq<Segment>,
    runs: Seq<SegmentRun<F, VC::Executor>>,
    r: Result<Seq<TracegenSegment<F, VC::Executor>>, ExecutionError>,
) -> bool {
    &&& chained(vm, exe, start, segments, runs)
    &&& match r {
        Ok(executors) => {
            &&& runs.len() == segments.len()
            &&& executors.len() == segments.len()
            &&& forall|i: int|
                0 <= i < runs.len() ==> executors[i] == (#[trigger] runs[i]).executor
        },
        Err(e) => breaks_after(vm, exe, start, segments, runs, e),
    }
}

/// The executors that were kept, or the error.
pub open spec fn kept<F, X>(r: Result<Vec<TracegenSegment<F, X>>, ExecutionError>) -> Result<
    Seq<TracegenSegment<F, X>>,
    ExecutionError,
> {
    match r {
        Ok(executors) => Ok(executors@),
        Err(e) => Err(e),
    }
}

/// `r` is what a run from a state answers: the error of the segment that failed, or whether the
/// program ended with success after all of them.
pub open spec fn run_answers<F: PrimeField32, VC: VmConfig<F>>(
    vm: VmExecutor<F, VC>,
    exe: VmExe<F>,
    start: Handover<F>,
    segments: Seq<Segment>,
    runs: Seq<SegmentRun<F, VC::Executor>>,
    r: Result<Option<MemoryImage>, ExecutionError>,
) -> bool {
    &&& chained(vm, exe, start, segments, runs)
    &&& if runs.len() == segments.len() {
        answers(runs.last().executor, r)
    } else {
        r is Err && breaks_after(vm, exe, start, segments, runs, r->Err_0)
    }
}

/// The state in which the program of an executable starts.
pub open spec fn initial<F: PrimeField32, VC: VmConfig<F>>(
    config: VC,
    exe: VmExe<F>,
    input: Streams<F>,
    start: Handover<F>,
    memory: MemoryImage,
) -> bool {
    &&& start == (Handover {
        instret: 0,
        pc: exe.pc_start,
        memory: memory@,
        input,
        rng: seeded(0),
    })
    &&& holds_image(
        &memory,
        config.spec_system().memory_config.addr_space_sizes@,
        &exe.init_memory,
    )
}

/// The initial memory of an executable fits the configuration.
pub open spec fn memory_fits<F: PrimeField32, VC: VmConfig<F>>(config: VC, exe: VmExe<F>) -> bool {
    &&& exe.init_memory.wf()
    &&& exe.init_memory.fits(config.spec_system().memory_config.addr_space_sizes@)
}

impl<F: PrimeField32, VC: VmConfig<F>> VmExecutor<F, VC> {
    /// Executes the planned segments of a program from a state. The executors of all segments are
    /// kept.
    fn execute_segments_from_state(
        &self,
        exe: &VmExe<F>,
        state: VmState<F>,
        segments: &[Segment],
    ) -> (r: Result<Vec<TracegenSegment<F, VC::Executor>>, ExecutionError>)
        requires
            executable(self.config, *exe, state.instret, segments@),
        ensures
            exists|runs: Seq<SegmentRun<F, VC::Executor>>| #[trigger]
                executes_all(*self, *exe, handover(state), segments@, runs, kept(r)),
    {
        let keep = |_i: usize, segment: TracegenSegment<F, VC::Executor>| -> (r: Result<
            TracegenSegment<F, VC::Executor>,
            ExecutionError,
        >)
            ensures
                r == Ok::<TracegenSegment<F, VC::Executor>, ExecutionError>(segment),
            { Ok(segment) };
        let same = |e: ExecutionError| -> (r: ExecutionError)
            ensures
                r == e,
            { e };
        let ghost start = handover(state);
        let r = self.execute_and_then_from_state(exe, state, segments, keep, same);
        proof {
            if r is Ok {
                let executors = r->Ok_0;
                let runs = choose|runs: Seq<SegmentRun<F, VC::Executor>>|
                    {
                        &&& runs.len() == segments@.len()
                        &&& #[trigger] chained(*self, *exe, start, segments@, runs)
                        &&& forall|i: int|
                            0 <= i < runs.len() ==> call_ensures(
                                keep,
                                (i as usize, (#[trigger] runs[i]).executor),
                                Ok(executors@[i]),
                            )
                    };
                assert(executes_all(*self, *exe, start, segments@, runs, kept(r)));
            } else {
                let e = r->Err_0;
                let runs = choose|runs: Seq<SegmentRun<F, VC::Executor>>| #[trigger]
                    chained(*self, *exe, start, segments@, runs) && gives_up(
                        *self,
                        *exe,
                        start,
                        segments@,
                        runs,
                        keep,
                        same,
                        r->Err_0,
                    );
                assert(executes_all(*self, *exe, start, segments@, runs, kept(r)));
            }
        }
        r
    }

    /// Executes the planned segments of a program from a state and checks that it ended with
    /// success.
    pub fn execute_from_state(
        &self,
        exe: &VmExe<F>,
        state: VmState<F>,
        segments: &[Segment],
    ) -> (r: Result<Option<MemoryImage>, ExecutionError>)
        requires
            executable(self.config, *exe, state.instret, segments@),
        ensures
            exists|runs: Seq<SegmentRun<F, VC::Executor>>| #[trigger]
                run_answers(*self, *exe, handover(state), segments@, runs, r),
    {
        let ghost start = handover(state);
        let executed = self.execute_segments_from_state(exe, state, segments);
        let ghost runs = choose|runs: Seq<SegmentRun<F, VC::Executor>>| #[trigger]
            executes_all(*self, *exe, start, segments@, runs, kept(executed));
        let executors = match executed {
            Ok(executors) => executors,
            Err(e) => {
                let r: Result<Option<MemoryImage>, ExecutionError> = Err(e);
                assert(run_answers(*self, *exe, start, segments@, runs, r));
                return r;
            },
        };
        let last = &executors[executors.len() - 1];
        proof {
            assert(runs[runs.len() - 1].executor == *last);
            reveal(link);
            assert(last.chip_complex.end is Some);
        }
        let final_memory = last.chip_complex.memory.clone();
        let end_state = last.chip_complex.end.unwrap();
        let r = match check_end_state(end_state) {
            Ok(()) => Ok(Some(final_memory)),
            Err(e) => Err(e),
        };
        assert(run_answers(*self, *exe, start, segments@, runs, r));
        r
    }

    /// Executes the planned segments of a program from its start and checks that it ended with
    /// success.
    pub fn execute(&self, exe: &VmExe<F>, input: Streams<F>, segments: &[Segment]) -> (r: Result<
        Option<MemoryImage>,
        ExecutionError,
    >)
        requires
            memory_fits(self.config, *exe),
            executable(self.config, *exe, 0, segments@),
        ensures
            exists|
                runs: Seq<SegmentRun<F, VC::Executor>>,
                start: Handover<F>,
                memory: MemoryImage,
            |
                {
                    &&& #[trigger] initial(self.config, *exe, input, start, memory)
                    &&& #[trigger] run_answers(*self, *exe, start, segments@, runs, r)
                },
    {
        let state = create_initial_state(&self.config.system().memory_config, exe, input, 0);
        assert(initial(self.config, *exe, input, handover(state), state.memory));
        self.execute_from_state(exe, state, segments)
    }

    /// Executes the planned segments of a program from its start. The executors of all segments
    /// are kept.
    pub fn execute_segments(
        &self,
        exe: &VmExe<F>,
        input: Streams<F>,
        segments: &[Segment],
    ) -> (r: Result<Vec<TracegenSegment<F, VC::Executor>>, ExecutionError>)
        requires
            memory_fits(self.config, *exe),
            executable(self.config, *exe, 0, segments@),
        ensures
            exists|
                runs: Seq<SegmentRun<F, VC::Executor>>,
                start: Handover<F>,
                memory: MemoryImage,
            |
                {
                    &&& #[trigger] initial(self.config, *exe, input, start, memory)
                    &&& #[trigger] executes_all(
                        *self,
                        *exe,
                        start,
                        segments@,
                        runs,
                        kept(r),
                    )
                },
    {
        let state = create_initial_state(&self.config.system().memory_config, exe, input, 0);
        assert(initial(self.config, *exe, input, handover(state), state.memory));
        self.execute_segments_from_state(exe, state, segments)
    }

    /// Executes the planned segments of a program from its start, one after the other, and gives
    /// each to `f` with its index.
    pub fn execute_and_then<
        R,
        E,
        G: Fn(usize, TracegenSegment<F, VC::Executor>) -> Result<R, E>,
        M: Fn(ExecutionError) -> E,
    >(
        &self,
        exe: &VmExe<F>,
        input: Streams<F>,
        segments: &[Segment],
        f: G,
        map_err: M,
    ) -> (r: Result<Vec<R>, E>)
        requires
            memory_fits(self.config, *exe),
            executable(self.config, *exe, 0, segments@),
            forall|i: usize, segment: TracegenSegment<F, VC::Executor>|
                #![trigger call_requires(f, (i, segment))]
                call_requires(f, (i, segment)),
            forall|e: ExecutionError|
                #![trigger call_requires(map_err, (e,))]
                call_requires(map_err, (e,)),
        ensures
            r matches Ok(results) ==> results@.len() == segments@.len() && exists|
                runs: Seq<SegmentRun<F, VC::Executor>>,
                start: Handover<F>,
                memory: MemoryImage,
            |
                {
                    &&& #[trigger] initial(self.config, *exe, input, start, memory)
                    &&& runs.len() == segments@.len()
                    &&& #[trigger] chained(*self, *exe, start, segments@, runs)
                    &&& forall|i: int|
                        0 <= i < runs.len() ==> call_ensures(
                            f,
                            (i as usize, (#[trigger] runs[i]).executor),
                            Ok(results@[i]),
                        )
                },
            r is Err ==> exists|
                runs: Seq<SegmentRun<F, VC::Executor>>,
                start: Handover<F>,
                memory: MemoryImage,
            |
                {
                    &&& #[trigger] initial(self.config, *exe, input, start, memory)
                    &&& #[trigger] chained(*self, *exe, start, segments@, runs)
                    &&& gives_up(
                        *self,
                        *exe,
                        start,
                        segments@,
                        runs,
                        f,
                        map_err,
                        r->Err_0,
                    )
                },
    {
        let state = create_initial_state(&self.config.system().memory_config, exe, input, 0);
        assert(initial(self.config, *exe, input, handover(state), state.memory));
        self.execute_and_then_from_state(exe, state, segments, f, map_err)
    }
}

} // verus!
