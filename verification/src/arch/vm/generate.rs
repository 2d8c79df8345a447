//! Runs that give the inputs of proofs.
use crate::arch::error::ExecutionError;
use crate::arch::vm::config::VmConfig;
use crate::arch::vm::exe::VmExe;
use crate::arch::vm::executor::{
    breaks_after, chained, executable, gives_up, handover, rejects, takes, takes_all, Handover,
    SegmentRun, TracegenSegment, VmExecutor,
};
use crate::arch::vm::interpreter::Segment;
use crate::arch::vm::run::{initial, memory_fits, GenerationError, VmExecutorResult};
use crate::arch::vm::state::{create_initial_state, VmState};
use crate::arch::vm::streams::Streams;
use crate::field::PrimeField32;
use crate::system::memory::MemoryImage;
use vstd::prelude::*;

verus! {

/// `r` is what a run gives to the prover: the inputs that `generate` makes of the segments with
/// the memory at the end of the last, or why a segment gave none.
pub open spec fn generates<
    F: PrimeField32,
    VC: VmConfig<F>,
    PI,
    G: Fn(usize, TracegenSegment<F, VC::Executor>) -> Result<PI, GenerationError>,
>(
    vm: VmExecutor<F, VC>,
    exe: VmExe<F>,
    start: Handover<F>,
    segments: Seq<Segment>,
    runs: Seq<SegmentRun<F, VC::Executor>>,
    generate: G,
    r: Result<VmExecutorResult<PI>, GenerationError>,
) -> bool {
    &&& chained(vm, exe, start, segments, runs)
    &&& match r {
        Ok(result) => {
            &&& runs.len() == segments.len()
            &&& result.per_segment@.len() == segments.len()
            &&& forall|i: int|
                0 <= i < runs.len() ==> call_ensures(
                    generate,
                    (i as usize, (#[trigger] runs[i]).executor),
                    Ok(result.per_segment@[i]),
                )
            &&& result.final_memory is Some
            &&& result.final_memory->0@ == runs.last().executor.chip_complex.memory@
        },
        Err(e) => {
            ||| {
                &&& takes_all::<F, VC, PI, GenerationError, G>(generate, runs, runs.len() as int)
                &&& e is Execution && breaks_after(vm, exe, start, segments, runs, e->Execution_0)
            }
            ||| {
                &&& runs.len() > 0
                &&& takes_all::<F, VC, PI, GenerationError, G>(generate, runs, runs.len() - 1)
                &&& rejects(generate, (runs.len() - 1) as usize, runs.last().executor, e)
            }
        },
    }
}

/// `generate` may answer the segment `i` with `r`.
pub open spec fn generated<
    F,
    X,
    PI,
    G: Fn(usize, TracegenSegment<F, X>) -> Result<PI, GenerationError>,
>(
    generate: &G,
    i: usize,
    segment: TracegenSegment<F, X>,
    r: Result<PI, GenerationError>,
) -> bool {
    call_ensures(*generate, (i, segment), r)
}

/// `generate` may answer the segment `i` of a committed program with `r`.
pub open spec fn generated_cached<
    F,
    X,
    PI,
    P,
    G: Fn(usize, TracegenSegment<F, X>, &P) -> Result<PI, GenerationError>,
>(
    generate: &G,
    i: usize,
    segment: TracegenSegment<F, X>,
    program: &P,
    r: Result<PI, GenerationError>,
) -> bool {
    call_ensures(*generate, (i, segment, program), r)
}

/// `generate` may answer each of the first `k` segments of a committed program with an input.
pub open spec fn generates_cached<
    F: PrimeField32,
    X,
    PI,
    P,
    G: Fn(usize, TracegenSegment<F, X>, &P) -> Result<PI, GenerationError>,
>(generate: G, program: &P, runs: Seq<SegmentRun<F, X>>, k: int) -> bool {
    forall|i: int|
        0 <= i < k ==> exists|input: PI|
            generated_cached(
                &generate,
                i as usize,
                (#[trigger] runs[i]).executor,
                program,
                #[trigger] input_of(input),
            )
}

/// An input was generated.
pub open spec fn input_of<PI>(input: PI) -> Result<PI, GenerationError> {
    Ok(input)
}

/// A program with the commitment `P` to its instructions.
#[derive(Debug)]
pub struct VmCommittedExe<F, P> {
    pub exe: VmExe<F>,
    pub committed_program: P,
}

/// The first parts of pairs, and the second part of the last.
fn split<A, B>(pairs: Vec<(A, B)>) -> (r: (Vec<A>, Option<B>))
    ensures
        r.0@.len() == pairs@.len(),
        forall|i: int| 0 <= i < pairs@.len() ==> r.0@[i] == (#[trigger] pairs@[i]).0,
        r.1 == (if pairs@.len() == 0 {
            None
        } else {
            Some(pairs@.last().1)
        }),
{
    let mut firsts: Vec<A> = Vec::new();
    let mut last: Option<B> = None;
    for pair in it: pairs
        invariant
            it.seq() == pairs@,
            firsts@.len() == it.index(),
            forall|i: int| 0 <= i < it.index() ==> firsts@[i] == (#[trigger] pairs@[i]).0,
            last == (if it.index() == 0 {
                None
            } else {
                Some(pairs@[it.index() - 1].1)
            }),
    {
        firsts.push(pair.0);
        last = Some(pair.1);
    }
    (firsts, last)
}

/// What answers segments with pairs answers them with the first parts too.
proof fn lemma_takes_first<
    F: PrimeField32,
    VC: VmConfig<F>,
    A,
    B,
    G: Fn(usize, TracegenSegment<F, VC::Executor>) -> Result<(A, B), GenerationError>,
    H: Fn(usize, TracegenSegment<F, VC::Executor>) -> Result<A, GenerationError>,
>(g: G, h: H, runs: Seq<SegmentRun<F, VC::Executor>>, k: int)
    requires
        k <= runs.len(),
        takes_all::<F, VC, (A, B), GenerationError, G>(g, runs, k),
        forall|i: usize, segment: TracegenSegment<F, VC::Executor>, pair: (A, B)| #[trigger]
            takes(g, i, segment, pair) ==> takes(h, i, segment, pair.0),
    ensures
        takes_all::<F, VC, A, GenerationError, H>(h, runs, k),
{
    assert forall|i: int| 0 <= i < k implies exists|input: A| #[trigger]
        takes(h, i as usize, (#[trigger] runs[i]).executor, input) by {
        let pair = choose|pair: (A, B)| #[trigger]
            takes(g, i as usize, runs[i].executor, pair);
        assert(takes(h, i as usize, runs[i].executor, pair.0));
    }
}

impl<F: PrimeField32, VC: VmConfig<F>> VmExecutor<F, VC> {
    /// Executes the planned segments of a program from a state and generates the input of the
    /// proof of each.
    pub fn execute_from_state_and_generate<
        PI,
        G: Fn(usize, TracegenSegment<F, VC::Executor>) -> Result<PI, GenerationError>,
    >(&self, exe: &VmExe<F>, state: VmState<F>, segments: &[Segment], generate: G) -> (r: Result<
        VmExecutorResult<PI>,
        GenerationError,
    >)
        requires
            executable(self.config, *exe, state.instret, segments@),
            forall|i: usize, segment: TracegenSegment<F, VC::Executor>|
                #![trigger call_requires(generate, (i, segment))]
                call_requires(generate, (i, segment)),
        ensures
            exists|runs: Seq<SegmentRun<F, VC::Executor>>| #[trigger]
                generates(
                    *self,
                    *exe,
                    handover(state),
                    segments@,
                    runs,
                    generate,
                    r,
                ),
    {
        let ghost start = handover(state);
        let with_memory = |i: usize, segment: TracegenSegment<F, VC::Executor>| -> (r: Result<
            (PI, MemoryImage),
            GenerationError,
        >)
            ensures
                match r {
                    Ok((input, memory)) => generated(&generate, i, segment, Ok(input)) && memory@
                        == segment.chip_complex.memory@,
                    Err(e) => generated(&generate, i, segment, Err(e)),
                },
            {
                let memory = segment.chip_complex.memory.clone();
                match generate(i, segment) {
                    Ok(input) => Ok((input, memory)),
                    Err(e) => Err(e),
                }
            };
        let wrap = |e: ExecutionError| -> (r: GenerationError)
            ensures
                r == GenerationError::Execution(e),
            { GenerationError::Execution(e) };
        let results = self.execute_and_then_from_state(exe, state, segments, with_memory, wrap);
        match results {
            Ok(pairs) => {
                let ghost listed = pairs@;
                let ghost runs = choose|runs: Seq<SegmentRun<F, VC::Executor>>|
                    {
                        &&& runs.len() == segments@.len()
                        &&& #[trigger] chained(*self, *exe, start, segments@, runs)
                        &&& forall|i: int|
                            0 <= i < runs.len() ==> call_ensures(
                                with_memory,
                                (i as usize, (#[trigger] runs[i]).executor),
                                Ok(listed[i]),
                            )
                    };
                let (per_segment, final_memory) = split(pairs);
                let r: Result<VmExecutorResult<PI>, GenerationError> = Ok(
                    VmExecutorResult { per_segment, final_memory },
                );
                assert(call_ensures(
                    with_memory,
                    ((runs.len() - 1) as usize, runs[runs.len() - 1].executor),
                    Ok(listed[runs.len() - 1]),
                ));
                assert(generates(*self, *exe, start, segments@, runs, generate, r));
                r
            },
            Err(e) => {
                let r: Result<VmExecutorResult<PI>, GenerationError> = Err(e);
                let ghost runs = choose|runs: Seq<SegmentRun<F, VC::Executor>>| #[trigger]
                    chained(*self, *exe, start, segments@, runs) && gives_up(
                        *self,
                        *exe,
                        start,
                        segments@,
                        runs,
                        with_memory,
                        wrap,
                        results->Err_0,
                    );
                proof {
                    let k = if takes_all::<F, VC, (PI, MemoryImage), GenerationError, _>(
                        with_memory,
                        runs,
                        runs.len() as int,
                    ) {
                        runs.len() as int
                    } else {
                        runs.len() - 1
                    };
                    lemma_takes_first::<F, VC, PI, MemoryImage, _, _>(with_memory, generate, runs, k);
                }
                assert(generates(*self, *exe, start, segments@, runs, generate, r));
                r
            },
        }
    }

    /// Executes the planned segments of a program from its start and generates the input of the
    /// proof of each.
    pub fn execute_and_generate<
        PI,
        G: Fn(usize, TracegenSegment<F, VC::Executor>) -> Result<PI, GenerationError>,
    >(&self, exe: &VmExe<F>, input: Streams<F>, segments: &[Segment], generate: G) -> (r: Result<
        VmExecutorResult<PI>,
        GenerationError,
    >)
        requires
            memory_fits(self.config, *exe),
            executable(self.config, *exe, 0, segments@),
            forall|i: usize, segment: TracegenSegment<F, VC::Executor>|
                #![trigger call_requires(generate, (i, segment))]
                call_requires(generate, (i, segment)),
        ensures
            exists|
                runs: Seq<SegmentRun<F, VC::Executor>>,
                start: Handover<F>,
                memory: MemoryImage,
            |
                {
                    &&& #[trigger] initial(self.config, *exe, input, start, memory)
                    &&& #[trigger] generates(
                        *self,
                        *exe,
                        start,
                        segments@,
                        runs,
                        generate,
                        r,
                    )
                },
    {
        let state = create_initial_state(&self.config.system().memory_config, exe, input, 0);
        assert(initial(self.config, *exe, input, handover(state), state.memory));
        self.execute_from_state_and_generate(exe, state, segments, generate)
    }

    /// Executes the planned segments of a committed program from its start and generates the
    /// input of the proof of each, to which `generate` gives the commitment.
    pub fn execute_and_generate_with_cached_program<
        PI,
        P,
        G: Fn(usize, TracegenSegment<F, VC::Executor>, &P) -> Result<PI, GenerationError>,
    >(
        &self,
        committed_exe: &VmCommittedExe<F, P>,
        input: Streams<F>,
        segments: &[Segment],
        generate: G,
    ) -> (r: Result<VmExecutorResult<PI>, GenerationError>)
        requires
            memory_fits(self.config, committed_exe.exe),
            executable(self.config, committed_exe.exe, 0, segments@),
            forall|i: usize, segment: TracegenSegment<F, VC::Executor>, program: &P|
                #![trigger call_requires(generate, (i, segment, program))]
                call_requires(generate, (i, segment, program)),
        ensures
            r matches Ok(result) ==> {
                &&& result.per_segment@.len() == segments@.len()
                &&& exists|
                    runs: Seq<SegmentRun<F, VC::Executor>>,
                    start: Handover<F>,
                    memory: MemoryImage,
                |
                    {
                        &&& #[trigger] initial(
                            self.config,
                            committed_exe.exe,
                            input,
                            start,
                            memory,
                        )
                        &&& #[trigger] chained(
                            *self,
                            committed_exe.exe,
                            start,
                            segments@,
                            runs,
                        )
                        &&& runs.len() == segments@.len()
                        &&& forall|i: int|
                            0 <= i < runs.len() ==> call_ensures(
                                generate,
                                (
                                    i as usize,
                                    (#[trigger] runs[i]).executor,
                                    &committed_exe.committed_program,
                                ),
                                Ok(result.per_segment@[i]),
                            )
                        &&& result.final_memory is Some
                        &&& result.final_memory->0@ == runs.last().executor.chip_complex.memory@
                    }
            },
            r matches Err(e) ==> exists|
                runs: Seq<SegmentRun<F, VC::Executor>>,
                start: Handover<F>,
                memory: MemoryImage,
            |
                {
                    &&& #[trigger] initial(self.config, committed_exe.exe, input, start, memory)
                    &&& #[trigger] chained(
                        *self,
                        committed_exe.exe,
                        start,
                        segments@,
                        runs,
                    )
                    &&& {
                        ||| {
                            &&& generates_cached(
                                generate,
                                &committed_exe.committed_program,
                                runs,
                                runs.len() as int,
                            )
                            &&& e is Execution && breaks_after(
                                *self,
                                committed_exe.exe,
                                start,
                                segments@,
                                runs,
                                e->Execution_0,
                            )
                        }
                        ||| {
                            &&& runs.len() > 0
                            &&& generates_cached(
                                generate,
                                &committed_exe.committed_program,
                                runs,
                                runs.len() - 1,
                            )
                            &&& generated_cached(
                                &generate,
                                (runs.len() - 1) as usize,
                                runs.last().executor,
                                &committed_exe.committed_program,
                                Err(e),
                            )
                        }
                    }
                },
    {
        let program = &committed_exe.committed_program;
        let cached = |i: usize, segment: TracegenSegment<F, VC::Executor>| -> (r: Result<
            PI,
            GenerationError,
        >)
            ensures
                generated_cached(&generate, i, segment, program, r),
            { generate(i, segment, program) };
        let r = self.execute_and_generate(&committed_exe.exe, input, segments, cached);
        proof {
            let (runs, start, memory) = choose|
                runs: Seq<SegmentRun<F, VC::Executor>>,
                start: Handover<F>,
                memory: MemoryImage,
            |
                {
                    &&& #[trigger] initial(self.config, committed_exe.exe, input, start, memory)
                    &&& #[trigger] generates(
                        *self,
                        committed_exe.exe,
                        start,
                        segments@,
                        runs,
                        cached,
                        r,
                    )
                };
            assert(chained(*self, committed_exe.exe, start, segments@, runs));
            assert forall|i: int|
                0 <= i < runs.len() && (exists|input: PI| #[trigger]
                    takes(cached, i as usize, runs[i].executor, input)) implies exists|input: PI|
                generated_cached(
                    &generate,
                    i as usize,
                    (#[trigger] runs[i]).executor,
                    &committed_exe.committed_program,
                    #[trigger] input_of(input),
                ) by {
                let input = choose|input: PI| #[trigger]
                    takes(cached, i as usize, runs[i].executor, input);
                assert(generated_cached(
                    &generate,
                    i as usize,
                    runs[i].executor,
                    program,
                    input_of(input),
                ));
            }
            if r is Ok {
                assert forall|i: int| 0 <= i < runs.len() implies call_ensures(
                    generate,
                    (
                        i as usize,
                        (#[trigger] runs[i]).executor,
                        &committed_exe.committed_program,
                    ),
                    Ok(r->Ok_0.per_segment@[i]),
                ) by {
                    assert(call_ensures(
                        cached,
                        (i as usize, runs[i].executor),
                        Ok(r->Ok_0.per_segment@[i]),
                    ));
                }
            }
        }
        r
    }
}

} // verus!
