//! What is handed on of the segments of a run.
use crate::arch::error::ExecutionError;
use crate::arch::vm::config::VmConfig;
use crate::arch::vm::exe::VmExe;
use crate::arch::vm::executor::{
    breaks_after, chained, gives_up, handover, maps_error, rejects, Handover, SegmentRun,
    TracegenSegment, VmExecutor,
};
use crate::arch::vm::generate::{generated_cached, generates, generates_cached, VmCommittedExe};
use crate::arch::vm::interpreter::Segment;
use crate::arch::vm::run::{initial, GenerationError, VmExecutorResult};
use crate::arch::vm::run_meaning::{
    lemma_initial, lemma_stops, starting_at, starts_program, stops_with,
};
use crate::arch::vm::state::VmState;
use crate::arch::vm::streams::Streams;
use crate::field::PrimeField32;
use crate::system::memory::MemoryImage;
use vstd::prelude::*;

verus! {

/// `f` answered every segment with its result: it was given the number of the segment and its
/// executor.
pub open spec fn answered<F, X, R, E, G: Fn(usize, TracegenSegment<F, X>) -> Result<R, E>>(
    f: G,
    runs: Seq<SegmentRun<F, X>>,
    results: Seq<R>,
) -> bool {
    &&& results.len() == runs.len()
    &&& forall|i: int|
        0 <= i < runs.len() ==> call_ensures(
            f,
            (i as usize, (#[trigger] runs[i]).executor),
            Ok(results[i]),
        )
}

/// `f` refused the last segment with `e`.
pub open spec fn refused<F, X, R, E, G: Fn(usize, TracegenSegment<F, X>) -> Result<R, E>>(
    f: G,
    runs: Seq<SegmentRun<F, X>>,
    e: E,
) -> bool {
    runs.len() > 0 && call_ensures(
        f,
        ((runs.len() - 1) as usize, runs[runs.len() - 1].executor),
        Err::<R, E>(e),
    )
}

/// What comes of giving the segments to `f`: all results, in order, if every planned segment was
/// executed; or what `map_err` makes of the error with which a segment breaks; or the error with
/// which `f` refuses one.
pub open spec fn given_to<
    F: PrimeField32,
    VC: VmConfig<F>,
    R,
    E,
    G: Fn(usize, TracegenSegment<F, VC::Executor>) -> Result<R, E>,
    M: Fn(ExecutionError) -> E,
>(
    vm: VmExecutor<F, VC>,
    exe: VmExe<F>,
    start: Handover<F>,
    segments: Seq<Segment>,
    runs: Seq<SegmentRun<F, VC::Executor>>,
    f: G,
    map_err: M,
    r: Result<Vec<R>, E>,
) -> bool {
    match r {
        Ok(results) => runs.len() == segments.len() && answered(f, runs, results@),
        Err(e) => {
            ||| exists|cause: ExecutionError| #[trigger]
                maps_error(map_err, cause, e) && stops_with(vm, exe, start, segments, runs, cause)
            ||| refused::<F, VC::Executor, R, E, G>(f, runs, e)
        },
    }
}

proof fn lemma_gives_up<
    F: PrimeField32,
    VC: VmConfig<F>,
    R,
    E,
    G: Fn(usize, TracegenSegment<F, VC::Executor>) -> Result<R, E>,
    M: Fn(ExecutionError) -> E,
>(
    vm: VmExecutor<F, VC>,
    exe: VmExe<F>,
    start: Handover<F>,
    segments: Seq<Segment>,
    runs: Seq<SegmentRun<F, VC::Executor>>,
    f: G,
    map_err: M,
    e: E,
)
    requires
        gives_up(vm, exe, start, segments, runs, f, map_err, e),
    ensures
        given_to(vm, exe, start, segments, runs, f, map_err, Err::<Vec<R>, E>(e)),
{
    if !refused::<F, VC::Executor, R, E, G>(f, runs, e) {
        assert(!rejects(f, (runs.len() - 1) as usize, runs.last().executor, e) || runs.len() == 0);
        let cause = choose|cause: ExecutionError| #[trigger]
            maps_error(map_err, cause, e) && breaks_after(
                vm,
                exe,
                start,
                segments,
                runs,
                cause,
            );
        lemma_stops(vm, exe, start, segments, runs, cause);
    }
}

/// Executing planned segments from a state gives each of them, in order, to `f`.
pub proof fn law_execute_and_then_from_state<
    F: PrimeField32,
    VC: VmConfig<F>,
    R,
    E,
    G: Fn(usize, TracegenSegment<F, VC::Executor>) -> Result<R, E>,
    M: Fn(ExecutionError) -> E,
>(
    vm: VmExecutor<F, VC>,
    exe: VmExe<F>,
    state: VmState<F>,
    segments: &[Segment],
    f: G,
    map_err: M,
    r: Result<Vec<R>, E>,
)
    requires
        call_ensures(
            VmExecutor::<F, VC>::execute_and_then_from_state::<R, E, G, M>,
            (&vm, &exe, state, segments, f, map_err),
            r,
        ),
    ensures
        exists|runs: Seq<SegmentRun<F, VC::Executor>>|
            {
                &&& #[trigger] chained(vm, exe, starting_at(state), segments@, runs)
                &&& given_to(vm, exe, starting_at(state), segments@, runs, f, map_err, r)
            },
{
    let start = starting_at(state);
    assert(start == handover(state));
    if r is Ok {
        let results = r->Ok_0;
        let runs = choose|runs: Seq<SegmentRun<F, VC::Executor>>|
            {
                &&& runs.len() == segments@.len()
                &&& #[trigger] chained(vm, exe, start, segments@, runs)
                &&& forall|i: int|
                    0 <= i < runs.len() ==> call_ensures(
                        f,
                        (i as usize, (#[trigger] runs[i]).executor),
                        Ok(results@[i]),
                    )
            };
        assert(answered(f, runs, results@));
        assert(chained(vm, exe, start, segments@, runs));
    } else {
        let runs = choose|runs: Seq<SegmentRun<F, VC::Executor>>| #[trigger]
            chained(vm, exe, start, segments@, runs) && gives_up(
                vm,
                exe,
                start,
                segments@,
                runs,
                f,
                map_err,
                r->Err_0,
            );
        lemma_gives_up::<F, VC, R, E, G, M>(
            vm,
            exe,
            start,
            segments@,
            runs,
            f,
            map_err,
            r->Err_0,
        );
        assert(chained(vm, exe, start, segments@, runs));
    }
}

/// Executing planned segments of a program starts the program and gives each segment, in order, to
/// `f`.
pub proof fn law_execute_and_then<
    F: PrimeField32,
    VC: VmConfig<F>,
    R,
    E,
    G: Fn(usize, TracegenSegment<F, VC::Executor>) -> Result<R, E>,
    M: Fn(ExecutionError) -> E,
>(
    vm: VmExecutor<F, VC>,
    exe: VmExe<F>,
    input: Streams<F>,
    segments: &[Segment],
    f: G,
    map_err: M,
    r: Result<Vec<R>, E>,
)
    requires
        exe.init_memory.wf(),
        call_ensures(
            VmExecutor::<F, VC>::execute_and_then::<R, E, G, M>,
            (&vm, &exe, input, segments, f, map_err),
            r,
        ),
    ensures
        exists|runs: Seq<SegmentRun<F, VC::Executor>>, start: Handover<F>|
            {
                &&& #[trigger] chained(vm, exe, start, segments@, runs)
                &&& starts_program::<F, VC>(
                    exe,
                    vm.config.spec_system().memory_config.addr_space_sizes@,
                    input,
                    start,
                )
                &&& given_to(vm, exe, start, segments@, runs, f, map_err, r)
            },
{
    if r is Ok {
        let results = r->Ok_0;
        let (runs, start, memory) = choose|
            runs: Seq<SegmentRun<F, VC::Executor>>,
            start: Handover<F>,
            memory: MemoryImage,
        |
            {
                &&& #[trigger] initial(vm.config, exe, input, start, memory)
                &&& runs.len() == segments@.len()
                &&& #[trigger] chained(vm, exe, start, segments@, runs)
                &&& forall|i: int|
                    0 <= i < runs.len() ==> call_ensures(
                        f,
                        (i as usize, (#[trigger] runs[i]).executor),
                        Ok(results@[i]),
                    )
            };
        lemma_initial(vm.config, exe, input, start, memory);
        assert(answered(f, runs, results@));
        assert(chained(vm, exe, start, segments@, runs));
    } else {
        let (runs, start, memory) = choose|
            runs: Seq<SegmentRun<F, VC::Executor>>,
            start: Handover<F>,
            memory: MemoryImage,
        |
            {
                &&& #[trigger] initial(vm.config, exe, input, start, memory)
                &&& #[trigger] chained(vm, exe, start, segments@, runs)
                &&& gives_up(vm, exe, start, segments@, runs, f, map_err, r->Err_0)
            };
        lemma_initial(vm.config, exe, input, start, memory);
        lemma_gives_up::<F, VC, R, E, G, M>(
            vm,
            exe,
            start,
            segments@,
            runs,
            f,
            map_err,
            r->Err_0,
        );
        assert(chained(vm, exe, start, segments@, runs));
    }
}

/// What a run gives to a prover: if every planned segment was executed, the inputs that `generate`
/// made of the segments, in order, and the memory that the last one left; otherwise the error with
/// which a segment breaks, or with which `generate` refuses one.
pub open spec fn inputs_of<
    F: PrimeField32,
    VC: VmConfig<F>,
    PI,
    G: Fn(usize, TracegenSegment<F, VC::Executor>) -> Result<PI, GenerationError>,
>(
    vm: VmExecutor<F, VC>,
    exe: VmExe<F>,
    start: Handover<F>,
    segments: Seq<Segment>,
    runs: Seq<SegmentRun<F, VC::Executor>>,
    generate: G,
    r: Result<VmExecutorResult<PI>, GenerationError>,
) -> bool {
    match r {
        Ok(result) => {
            &&& runs.len() == segments.len()
            &&& answered(generate, runs, result.per_segment@)
            &&& result.final_memory matches Some(m)
            &&& m@ == runs[runs.len() - 1].executor.chip_complex.memory@
        },
        Err(e) => {
            ||| (e matches GenerationError::Execution(cause) && stops_with(
                vm,
                exe,
                start,
                segments,
                runs,
                cause,
            ))
            ||| refused::<F, VC::Executor, PI, GenerationError, G>(generate, runs, e)
        },
    }
}

/// What a run gives to a prover.
pub proof fn lemma_generates<
    F: PrimeField32,
    VC: VmConfig<F>,
    PI,
    G: Fn(usize, TracegenSegment<F, VC::Executor>) -> Result<PI, GenerationError>,
>(
    vm: VmExecutor<F, VC>,
    exe: VmExe<F>,
    start: Handover<F>,
    segments: Seq<Segment>,
    runs: Seq<SegmentRun<F, VC::Executor>>,
    generate: G,
    r: Result<VmExecutorResult<PI>, GenerationError>,
)
    requires
        generates(vm, exe, start, segments, runs, generate, r),
    ensures
        chained(vm, exe, start, segments, runs),
        inputs_of(vm, exe, start, segments, runs, generate, r),
{
    if r is Ok {
        assert(answered(generate, runs, r->Ok_0.per_segment@));
    } else if !refused::<F, VC::Executor, PI, GenerationError, G>(generate, runs, r->Err_0) {
        assert(runs.len() == 0 || !rejects(
            generate,
            (runs.len() - 1) as usize,
            runs.last().executor,
            r->Err_0,
        ));
        lemma_stops(vm, exe, start, segments, runs, r->Err_0->Execution_0);
    }
}

/// Generating the inputs of proofs from a state executes the segments one after the other and gives
/// each, in order, to `generate`.
pub proof fn law_generate_from_state<
    F: PrimeField32,
    VC: VmConfig<F>,
    PI,
    G: Fn(usize, TracegenSegment<F, VC::Executor>) -> Result<PI, GenerationError>,
>(
    vm: VmExecutor<F, VC>,
    exe: VmExe<F>,
    state: VmState<F>,
    segments: &[Segment],
    generate: G,
    r: Result<VmExecutorResult<PI>, GenerationError>,
)
    requires
        call_ensures(
            VmExecutor::<F, VC>::execute_from_state_and_generate::<PI, G>,
            (&vm, &exe, state, segments, generate),
            r,
        ),
    ensures
        exists|runs: Seq<SegmentRun<F, VC::Executor>>|
            {
                &&& #[trigger] chained(vm, exe, starting_at(state), segments@, runs)
                &&& inputs_of(vm, exe, starting_at(state), segments@, runs, generate, r)
            },
{
    let start = starting_at(state);
    assert(start == handover(state));
    let runs = choose|runs: Seq<SegmentRun<F, VC::Executor>>| #[trigger]
        generates(vm, exe, start, segments@, runs, generate, r);
    lemma_generates(vm, exe, start, segments@, runs, generate, r);
}

/// Generating the inputs of proofs of a program starts the program, executes the segments one after
/// the other and gives each, in order, to `generate`.
pub proof fn law_generate<
    F: PrimeField32,
    VC: VmConfig<F>,
    PI,
    G: Fn(usize, TracegenSegment<F, VC::Executor>) -> Result<PI, GenerationError>,
>(
    vm: VmExecutor<F, VC>,
    exe: VmExe<F>,
    input: Streams<F>,
    segments: &[Segment],
    generate: G,
    r: Result<VmExecutorResult<PI>, GenerationError>,
)
    requires
        exe.init_memory.wf(),
        call_ensures(
            VmExecutor::<F, VC>::execute_and_generate::<PI, G>,
            (&vm, &exe, input, segments, generate),
            r,
        ),
    ensures
        exists|runs: Seq<SegmentRun<F, VC::Executor>>, start: Handover<F>|
            {
                &&& #[trigger] chained(vm, exe, start, segments@, runs)
                &&& starts_program::<F, VC>(
                    exe,
                    vm.config.spec_system().memory_config.addr_space_sizes@,
                    input,
                    start,
                )
                &&& inputs_of(vm, exe, start, segments@, runs, generate, r)
            },
{
    let (runs, start, memory) = choose|
        runs: Seq<SegmentRun<F, VC::Executor>>,
        start: Handover<F>,
        memory: MemoryImage,
    |
        {
            &&& #[trigger] initial(vm.config, exe, input, start, memory)
            &&& #[trigger] generates(vm, exe, start, segments@, runs, generate, r)
        };
    lemma_initial(vm.config, exe, input, start, memory);
    lemma_generates(vm, exe, start, segments@, runs, generate, r);
}

/// Generating the inputs of proofs of a committed program starts the program, executes the segments
/// one after the other and gives each, in order, to `generate`, with its number and the commitment.
/// The final memory is the one that the last segment left.
pub proof fn law_generate_with_cached_program<
    F: PrimeField32,
    VC: VmConfig<F>,
    PI,
    P,
    G: Fn(usize, TracegenSegment<F, VC::Executor>, &P) -> Result<PI, GenerationError>,
>(
    vm: VmExecutor<F, VC>,
    committed: VmCommittedExe<F, P>,
    input: Streams<F>,
    segments: &[Segment],
    generate: G,
    r: Result<VmExecutorResult<PI>, GenerationError>,
)
    requires
        committed.exe.init_memory.wf(),
        call_ensures(
            VmExecutor::<F, VC>::execute_and_generate_with_cached_program::<PI, P, G>,
            (&vm, &committed, input, segments, generate),
            r,
        ),
    ensures
        exists|runs: Seq<SegmentRun<F, VC::Executor>>, start: Handover<F>|
            {
                &&& #[trigger] chained(vm, committed.exe, start, segments@, runs)
                &&& starts_program::<F, VC>(
                    committed.exe,
                    vm.config.spec_system().memory_config.addr_space_sizes@,
                    input,
                    start,
                )
                &&& match r {
                    Ok(result) => {
                        &&& runs.len() == segments@.len()
                        &&& result.per_segment@.len() == segments@.len()
                        &&& forall|i: int|
                            0 <= i < runs.len() ==> call_ensures(
                                generate,
                                (
                                    i as usize,
                                    (#[trigger] runs[i]).executor,
                                    &committed.committed_program,
                                ),
                                Ok(result.per_segment@[i]),
                            )
                        &&& result.final_memory matches Some(m)
                        &&& m@ == runs[runs.len() - 1].executor.chip_complex.memory@
                    },
                    Err(e) => {
                        ||| (e matches GenerationError::Execution(cause) && stops_with(
                            vm,
                            committed.exe,
                            start,
                            segments@,
                            runs,
                            cause,
                        ))
                        ||| runs.len() > 0 && call_ensures(
                            generate,
                            (
                                (runs.len() - 1) as usize,
                                runs[runs.len() - 1].executor,
                                &committed.committed_program,
                            ),
                            Err::<PI, GenerationError>(e),
                        )
                    },
                }
            },
{
    let exe = committed.exe;
    if r is Ok {
        let result = r->Ok_0;
        let (runs, start, memory) = choose|
            runs: Seq<SegmentRun<F, VC::Executor>>,
            start: Handover<F>,
            memory: MemoryImage,
        |
            {
                &&& #[trigger] initial(vm.config, exe, input, start, memory)
                &&& #[trigger] chained(vm, exe, start, segments@, runs)
                &&& runs.len() == segments@.len()
                &&& forall|i: int|
                    0 <= i < runs.len() ==> call_ensures(
                        generate,
                        (i as usize, (#[trigger] runs[i]).executor, &committed.committed_program),
                        Ok(result.per_segment@[i]),
                    )
                &&& result.final_memory is Some
                &&& result.final_memory->0@ == runs.last().executor.chip_complex.memory@
            };
        lemma_initial(vm.config, exe, input, start, memory);
        assert(chained(vm, exe, start, segments@, runs));
    } else {
        let e = r->Err_0;
        let (runs, start, memory) = choose|
            runs: Seq<SegmentRun<F, VC::Executor>>,
            start: Handover<F>,
            memory: MemoryImage,
        |
            {
                &&& #[trigger] initial(vm.config, exe, input, start, memory)
                &&& #[trigger] chained(vm, exe, start, segments@, runs)
                &&& {
                    ||| {
                        &&& generates_cached(
                            generate,
                            &committed.committed_program,
                            runs,
                            runs.len() as int,
                        )
                        &&& e is Execution && breaks_after(
                            vm,
                            exe,
                            start,
                            segments@,
                            runs,
                            e->Execution_0,
                        )
                    }
                    ||| {
                        &&& runs.len() > 0
                        &&& generates_cached(
                            generate,
                            &committed.committed_program,
                            runs,
                            runs.len() - 1,
                        )
                        &&& generated_cached(
                            &generate,
                            (runs.len() - 1) as usize,
                            runs.last().executor,
                            &committed.committed_program,
                            Err(e),
                        )
                    }
                }
            };
        lemma_initial(vm.config, exe, input, start, memory);
        if e is Execution && breaks_after(
            vm,
            exe,
            start,
            segments@,
            runs,
            e->Execution_0,
        ) {
            lemma_stops(vm, exe, start, segments@, runs, e->Execution_0);
        }
        assert(chained(vm, exe, start, segments@, runs));
    }
}

} // verus!
