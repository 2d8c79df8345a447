//! What runs over segments do to the state of a program.
use crate::arch::error::ExecutionError;
use crate::arch::segment_executor::{executes, law_tracegen_segment};
use crate::arch::vm::complex::{ConnectorState, VmChipComplex};
use crate::arch::vm::config::VmConfig;
use crate::arch::vm::control::begun;
use crate::arch::vm::exe::{Program, VmExe};
use crate::arch::vm::executor::{
    before_run, breaks, breaks_after, chained, fails_in, handover, link, set_up, Handover,
    SegmentRun, TracegenSegment, VmExecutor,
};
use crate::arch::vm::exit::{check_exit_code, check_termination};
use crate::arch::vm::interpreter::{MeteredOutcome, Segment};
use crate::arch::vm::rng::seeded;
use crate::arch::vm::run::{check_end_state, initial, run_answers};
use crate::arch::vm::state::VmState;
use crate::arch::vm::state_laws::{byte_is_listed, has_byte};
use crate::arch::vm::streams::Streams;
use crate::field::PrimeField32;
use crate::system::memory::MemoryImage;
use crate::system::memory_laws::{lemma_stored_byte, stored_byte};
use rand::rngs::StdRng;
use vstd::prelude::*;

verus! {

/// Exit code zero is success, and every other one is a failure with that code.
pub proof fn law_check_exit_code(exit_code: u32, r: Result<(), ExecutionError>)
    requires
        call_ensures(check_exit_code, (exit_code,), r),
    ensures
        exit_code == 0 <==> r is Ok,
        r matches Err(e) ==> e == ExecutionError::FailedWithExitCode(exit_code),
{
}

/// A program that ended has the result of its exit code; one that failed keeps its error; one that
/// did neither did not terminate.
pub proof fn law_check_termination(
    exit_code: Result<Option<u32>, ExecutionError>,
    r: Result<(), ExecutionError>,
)
    requires
        call_ensures(check_termination, (exit_code,), r),
    ensures
        exit_code matches Ok(Some(code)) ==> (r is Ok <==> code == 0),
        exit_code matches Ok(Some(code)) ==> (r matches Err(e) ==> e
            == ExecutionError::FailedWithExitCode(code)),
        exit_code matches Ok(None) ==> (r matches Err(e) && e == ExecutionError::DidNotTerminate),
        exit_code matches Err(f) ==> (r matches Err(e) && e == f),
{
}

/// The end of a segment is that of a successful program if it is marked as terminated with exit code
/// zero. A mark other than one means that the program did not terminate.
pub proof fn law_check_end_state(end_state: ConnectorState, r: Result<(), ExecutionError>)
    requires
        call_ensures(check_end_state, (end_state,), r),
    ensures
        r is Ok <==> end_state.is_terminate == 1 && end_state.exit_code == 0,
        end_state.is_terminate != 1 ==> (r matches Err(e) && e == ExecutionError::DidNotTerminate),
        end_state.is_terminate == 1 ==> (r matches Err(e) ==> e
            == ExecutionError::FailedWithExitCode(end_state.exit_code)),
{
}

/// Metered execution gives its segments if the program ended with exit code zero, and otherwise says
/// why it did not.
pub proof fn law_metered_segments(outcome: MeteredOutcome, r: Result<Vec<Segment>, ExecutionError>)
    requires
        call_ensures(MeteredOutcome::into_segments, (outcome,), r),
    ensures
        outcome.exit_code matches Ok(Some(code)) ==> (r is Ok <==> code == 0),
        r matches Ok(segments) ==> segments == outcome.segments,
        outcome.exit_code matches Ok(Some(code)) ==> (r matches Err(e) ==> e
            == ExecutionError::FailedWithExitCode(code)),
        outcome.exit_code matches Ok(None) ==> (r matches Err(e) && e
            == ExecutionError::DidNotTerminate),
        outcome.exit_code matches Err(f) ==> (r matches Err(e) && e == f),
{
}

/// A segment was launched with this count, program counter, input and generator: nothing has ended
/// the program, and it is to suspend after `num_insns` instructions.
pub open spec fn launched<F, X>(
    run: SegmentRun<F, X>,
    instret: u64,
    pc: u32,
    input: Streams<F>,
    rng: StdRng,
    num_insns: u64,
) -> bool {
    &&& run.first.instret == instret
    &&& run.first.pc == pc
    &&& run.first.streams == input
    &&& run.first.rng == rng
    &&& run.first.exit_code matches Ok(None)
    &&& run.first.ctx.instret_end matches Some(end)
    &&& end == instret + num_insns
}

/// The ends that a segment records: it begins at its first program counter, with neither termination
/// nor exit code, and ends at its last one, with termination and the exit code of the program if it
/// ended, and without termination and with exit code 42 otherwise.
pub open spec fn ends_recorded<F, X>(run: SegmentRun<F, X>) -> bool {
    let complex = run.executor.chip_complex;
    &&& complex.begin matches Some(begin)
    &&& begin.pc == run.first.pc && begin.is_terminate == 0 && begin.exit_code == 0
    &&& complex.end matches Some(end)
    &&& end.pc == run.last.pc
    &&& run.last.exit_code matches Ok(Some(code)) ==> end.is_terminate == 1 && end.exit_code == code
    &&& !(run.last.exit_code matches Ok(Some(_))) ==> end.is_terminate == 0 && end.exit_code == 42
}

/// Two programs have the same instructions at the same program counters.
pub open spec fn same_instructions<F: Copy>(p: Program<F>, q: Program<F>) -> bool {
    &&& p.step == q.step
    &&& p.pc_base == q.pc_base
    &&& p.instructions_and_debug_infos@.len() == q.instructions_and_debug_infos@.len()
    &&& forall|i: int|
        0 <= i < p.instructions_and_debug_infos@.len() ==> match (
        #[trigger] p.instructions_and_debug_infos@[i]) {
            Some(entry) => q.instructions_and_debug_infos@[i] matches Some(other) && other.0
                == entry.0,
            None => q.instructions_and_debug_infos@[i] is None,
        }
}

proof fn lemma_set_up_program<F: PrimeField32, VC: VmConfig<F>>(
    config: VC,
    exe: VmExe<F>,
    memory: Option<Seq<Seq<u32>>>,
    heights: Option<Seq<u32>>,
    chips: VmChipComplex<F, VC::Executor>,
)
    requires
        set_up(config, exe, memory, heights, chips),
    ensures
        same_instructions(exe.program, chips.program),
        memory matches Some(m) ==> chips.memory@ == m && (chips.initial_memory matches Some(i)
            && i@ == m),
{
    reveal(set_up);
    let entries = exe.program.instructions_and_debug_infos@;
    let kept = chips.program.instructions_and_debug_infos@;
    if !config.spec_system().profiling {
        assert forall|i: int| 0 <= i < entries.len() implies match (#[trigger] entries[i]) {
            Some(entry) => kept[i] matches Some(other) && other.0 == entry.0,
            None => kept[i] is None,
        } by {
            assert(kept[i] == crate::arch::vm::exe::stripped(entries[i]));
        }
    }
}

/// A segment that was executed from what was handed to it starts with that count, program counter,
/// memory, input and generator, on chips that have the instructions of the program; it executes
/// instructions until it stops, and records its ends. With continuations it retires at most as many
/// instructions as planned, and exactly as many unless the program ended.
pub proof fn law_segment_run<F: PrimeField32, VC: VmConfig<F>>(
    vm: VmExecutor<F, VC>,
    exe: VmExe<F>,
    from: Handover<F>,
    segment: Segment,
    run: SegmentRun<F, VC::Executor>,
)
    requires
        link(vm, exe, from, segment, run),
    ensures
        launched(run, from.instret, from.pc, from.input, from.rng, segment.num_insns),
        run.chips.memory@ == from.memory,
        run.executor.chip_complex.initial_memory matches Some(m) && m@ == from.memory,
        same_instructions(exe.program, run.chips.program),
        executes(
            run.executor.ctrl,
            (run.first, begun(run.chips, run.first.pc)),
            (run.last, VmChipComplex { end: run.chips.end, ..run.executor.chip_complex }),
            None,
        ),
        ends_recorded(run),
        vm.config.spec_system().continuation_enabled ==> run.last.instret <= from.instret
            + segment.num_insns,
        !(run.last.exit_code matches Ok(Some(_))) ==> vm.config.spec_system().continuation_enabled
            && run.last.instret == from.instret + segment.num_insns,
        run.executor.trace_height_constraints@ == vm.trace_height_constraints@,
{
    reveal(link);
    let heights = Some(segment.trace_heights@);
    lemma_set_up_program(vm.config, exe, Some(from.memory), heights, run.chips);
    law_tracegen_segment(
        run.executor.ctrl,
        run.chips,
        run.first,
        run.executor.chip_complex,
        run.last,
        None,
    );
}

/// Segments are executed one after the other: the first from the start, and each other one from the
/// count, the program counter, the memory, the input and the generator that the one before it left.
pub proof fn law_segments_follow<F: PrimeField32, VC: VmConfig<F>>(
    vm: VmExecutor<F, VC>,
    exe: VmExe<F>,
    start: Handover<F>,
    segments: Seq<Segment>,
    runs: Seq<SegmentRun<F, VC::Executor>>,
    i: int,
)
    requires
        chained(vm, exe, start, segments, runs),
        0 <= i < runs.len(),
    ensures
        runs.len() <= segments.len(),
        i == 0 ==> {
            &&& launched(
                runs[0],
                start.instret,
                start.pc,
                start.input,
                start.rng,
                segments[0].num_insns,
            )
            &&& runs[0].chips.memory@ == start.memory
        },
        i > 0 ==> {
            let before = runs[i - 1];
            &&& launched(
                runs[i],
                before.last.instret,
                before.last.pc,
                before.last.streams,
                before.last.rng,
                segments[i].num_insns,
            )
            &&& runs[i].chips.memory@ == before.executor.chip_complex.memory@
        },
        same_instructions(exe.program, runs[i].chips.program),
        ends_recorded(runs[i]),
{
    assert(link(vm, exe, before_run(start, runs, i), segments[i], runs[i]));
    law_segment_run(vm, exe, before_run(start, runs, i), segments[i], runs[i]);
}

/// A segment breaks because its last count cannot be held, or because an instruction fails on chips
/// that were launched from what was handed to the segment.
pub proof fn law_segment_breaks<F: PrimeField32, VC: VmConfig<F>>(
    vm: VmExecutor<F, VC>,
    exe: VmExe<F>,
    from: Handover<F>,
    segment: Segment,
    e: ExecutionError,
)
    requires
        breaks(vm, exe, from, segment, e),
    ensures
        (e == ExecutionError::InstretOverflow && from.instret + segment.num_insns
            >= 0x1_0000_0000_0000_0000) || exists|run: SegmentRun<F, VC::Executor>|
            {
                &&& #[trigger] launched(
                    run,
                    from.instret,
                    from.pc,
                    from.input,
                    from.rng,
                    segment.num_insns,
                )
                &&& run.chips.memory@ == from.memory
                &&& same_instructions(exe.program, run.chips.program)
                &&& executes(
                    run.executor.ctrl,
                    (run.first, begun(run.chips, run.first.pc)),
                    (run.last, VmChipComplex { end: run.chips.end, ..run.executor.chip_complex }),
                    Some(e),
                )
            },
{
    reveal(breaks);
    if exists|run: SegmentRun<F, VC::Executor>| #[trigger]
        fails_in(vm, exe, from, segment, run, e) {
        let run = choose|run: SegmentRun<F, VC::Executor>| #[trigger]
            fails_in(vm, exe, from, segment, run, e);
        let heights = Some(segment.trace_heights@);
        lemma_set_up_program(vm.config, exe, Some(from.memory), heights, run.chips);
        law_tracegen_segment(
            run.executor.ctrl,
            run.chips,
            run.first,
            run.executor.chip_complex,
            run.last,
            Some(e),
        );
        assert(launched(
            run,
            from.instret,
            from.pc,
            from.input,
            from.rng,
            segment.num_insns,
        ));
    }
}

/// What the last of the segments that were executed left: its count, program counter, memory, input
/// and generator, or the start if there is none.
pub open spec fn left_by<F, X>(start: Handover<F>, runs: Seq<SegmentRun<F, X>>) -> Handover<F> {
    if runs.len() == 0 {
        start
    } else {
        Handover {
            instret: runs.last().last.instret,
            pc: runs.last().last.pc,
            memory: runs.last().executor.chip_complex.memory@,
            input: runs.last().last.streams,
            rng: runs.last().last.rng,
        }
    }
}

/// The first segment that was not executed breaks with `e`.
pub open spec fn stops_with<F: PrimeField32, VC: VmConfig<F>>(
    vm: VmExecutor<F, VC>,
    exe: VmExe<F>,
    start: Handover<F>,
    segments: Seq<Segment>,
    runs: Seq<SegmentRun<F, VC::Executor>>,
    e: ExecutionError,
) -> bool {
    &&& runs.len() < segments.len()
    &&& breaks(vm, exe, left_by(start, runs), segments[runs.len() as int], e)
}

/// What breaks after the segments that were executed starts where they left off.
pub proof fn lemma_stops<F: PrimeField32, VC: VmConfig<F>>(
    vm: VmExecutor<F, VC>,
    exe: VmExe<F>,
    start: Handover<F>,
    segments: Seq<Segment>,
    runs: Seq<SegmentRun<F, VC::Executor>>,
    e: ExecutionError,
)
    requires
        breaks_after(vm, exe, start, segments, runs, e),
    ensures
        stops_with(vm, exe, start, segments, runs, e),
{
    assert(left_by(start, runs) == before_run(start, runs, runs.len() as int));
}

/// What a run answers: if all planned segments were executed, the memory that the last one left
/// if the program ended there with exit code zero, a failure with its exit code if that is another,
/// and otherwise that it did not terminate; if not all were executed, the error with which the
/// next one breaks.
pub open spec fn answer_of<F: PrimeField32, VC: VmConfig<F>>(
    vm: VmExecutor<F, VC>,
    exe: VmExe<F>,
    start: Handover<F>,
    segments: Seq<Segment>,
    runs: Seq<SegmentRun<F, VC::Executor>>,
    r: Result<Option<MemoryImage>, ExecutionError>,
) -> bool {
    if runs.len() == segments.len() {
        match runs.last().last.exit_code {
            Ok(Some(code)) => if code == 0 {
                r matches Ok(Some(m)) && m@ == runs.last().executor.chip_complex.memory@
            } else {
                r matches Err(e) && e == ExecutionError::FailedWithExitCode(code)
            },
            _ => r matches Err(e) && e == ExecutionError::DidNotTerminate,
        }
    } else {
        r matches Err(e) && stops_with(vm, exe, start, segments, runs, e)
    }
}

/// The answer of a chain of segments.
pub proof fn lemma_answer<F: PrimeField32, VC: VmConfig<F>>(
    vm: VmExecutor<F, VC>,
    exe: VmExe<F>,
    start: Handover<F>,
    segments: Seq<Segment>,
    runs: Seq<SegmentRun<F, VC::Executor>>,
    r: Result<Option<MemoryImage>, ExecutionError>,
)
    requires
        segments.len() > 0,
        run_answers(vm, exe, start, segments, runs, r),
    ensures
        answer_of(vm, exe, start, segments, runs, r),
{
    if runs.len() == segments.len() {
        law_segments_follow(vm, exe, start, segments, runs, runs.len() - 1);
    } else {
        lemma_stops(vm, exe, start, segments, runs, r->Err_0);
    }
}

/// A run that starts with the count, the program counter, the memory, the input and the generator of
/// a state.
pub open spec fn starting_at<F>(state: VmState<F>) -> Handover<F> {
    Handover {
        instret: state.instret,
        pc: state.pc,
        memory: state.memory@,
        input: state.input,
        rng: state.rng,
    }
}

/// Executing planned segments from a state executes them one after the other from its count, program
/// counter, memory, input and generator, and answers as the last one ended.
pub proof fn law_vm_execute_from_state<F: PrimeField32, VC: VmConfig<F>>(
    vm: VmExecutor<F, VC>,
    exe: VmExe<F>,
    state: VmState<F>,
    segments: &[Segment],
    r: Result<Option<MemoryImage>, ExecutionError>,
)
    requires
        segments@.len() > 0,
        call_ensures(
            VmExecutor::<F, VC>::execute_from_state,
            (&vm, &exe, state, segments),
            r,
        ),
    ensures
        exists|runs: Seq<SegmentRun<F, VC::Executor>>|
            {
                &&& #[trigger] chained(vm, exe, starting_at(state), segments@, runs)
                &&& answer_of(vm, exe, starting_at(state), segments@, runs, r)
            },
{
    let start = starting_at(state);
    assert(start == handover(state));
    let runs = choose|runs: Seq<SegmentRun<F, VC::Executor>>| #[trigger]
        run_answers(vm, exe, start, segments@, runs, r);
    lemma_answer(vm, exe, start, segments@, runs, r);
    assert(chained(vm, exe, start, segments@, runs));
}

/// A run starts with no instruction retired, at the first program counter of the program, with the
/// bytes of its initial memory and zeros elsewhere, with the given input, and with a generator that
/// is seeded with zero.
pub open spec fn starts_program<F, VC>(
    exe: VmExe<F>,
    sizes: Seq<usize>,
    input: Streams<F>,
    start: Handover<F>,
) -> bool {
    &&& start.instret == 0
    &&& start.pc == exe.pc_start
    &&& start.input == input
    &&& start.rng == seeded(0)
    &&& start.memory.len() == sizes.len()
    &&& forall|a: int, k: int, memory: MemoryImage|
        memory@ == start.memory && has_byte(sizes, a, k) ==> byte_is_listed(
            exe.init_memory,
            a,
            k,
            #[trigger] stored_byte(memory, a, k),
        )
}

/// The initial state of a run.
pub proof fn lemma_initial<F: PrimeField32, VC: VmConfig<F>>(
    config: VC,
    exe: VmExe<F>,
    input: Streams<F>,
    start: Handover<F>,
    memory: MemoryImage,
)
    requires
        exe.init_memory.wf(),
        initial(config, exe, input, start, memory),
    ensures
        starts_program::<F, VC>(
            exe,
            config.spec_system().memory_config.addr_space_sizes@,
            input,
            start,
        ),
{
    let sizes = config.spec_system().memory_config.addr_space_sizes@;
    assert forall|a: int, k: int, other: MemoryImage|
        other@ == start.memory && has_byte(sizes, a, k) implies byte_is_listed(
        exe.init_memory,
        a,
        k,
        #[trigger] stored_byte(other, a, k),
    ) by {
        assert(other@ == memory@);
        lemma_stored_byte(sizes, exe.init_memory, other, a, k);
    }
}

/// Executing planned segments of a program starts the program, executes the segments one after the
/// other, and answers as the last one ended.
pub proof fn law_vm_execute<F: PrimeField32, VC: VmConfig<F>>(
    vm: VmExecutor<F, VC>,
    exe: VmExe<F>,
    input: Streams<F>,
    segments: &[Segment],
    r: Result<Option<MemoryImage>, ExecutionError>,
)
    requires
        exe.init_memory.wf(),
        segments@.len() > 0,
        call_ensures(VmExecutor::<F, VC>::execute, (&vm, &exe, input, segments), r),
    ensures
        exists|runs: Seq<SegmentRun<F, VC::Executor>>, start: Handover<F>|
            {
                &&& #[trigger] chained(vm, exe, start, segments@, runs)
                &&& starts_program::<F, VC>(
                    exe,
                    vm.config.spec_system().memory_config.addr_space_sizes@,
                    input,
                    start,
                )
                &&& answer_of(vm, exe, start, segments@, runs, r)
            },
{
    let (runs, start, memory) = choose|
        runs: Seq<SegmentRun<F, VC::Executor>>,
        start: Handover<F>,
        memory: MemoryImage,
    |
        {
            &&& #[trigger] initial(vm.config, exe, input, start, memory)
            &&& #[trigger] run_answers(vm, exe, start, segments@, runs, r)
        };
    lemma_initial(vm.config, exe, input, start, memory);
    lemma_answer(vm, exe, start, segments@, runs, r);
    assert(chained(vm, exe, start, segments@, runs));
}

/// Executing planned segments of a program and keeping them starts the program and executes the
/// segments one after the other; what is kept are their executors, in order, and if a segment breaks
/// it is an error.
pub proof fn law_vm_execute_segments<F: PrimeField32, VC: VmConfig<F>>(
    vm: VmExecutor<F, VC>,
    exe: VmExe<F>,
    input: Streams<F>,
    segments: &[Segment],
    r: Result<Vec<TracegenSegment<F, VC::Executor>>, ExecutionError>,
)
    requires
        exe.init_memory.wf(),
        call_ensures(VmExecutor::<F, VC>::execute_segments, (&vm, &exe, input, segments), r),
    ensures
        exists|runs: Seq<SegmentRun<F, VC::Executor>>, start: Handover<F>|
            {
                &&& #[trigger] chained(vm, exe, start, segments@, runs)
                &&& starts_program::<F, VC>(
                    exe,
                    vm.config.spec_system().memory_config.addr_space_sizes@,
                    input,
                    start,
                )
                &&& match r {
                    Ok(executors) => {
                        &&& runs.len() == segments@.len()
                        &&& executors@.len() == segments@.len()
                        &&& forall|i: int|
                            0 <= i < runs.len() ==> (#[trigger] runs[i]).executor == executors@[i]
                    },
                    Err(e) => stops_with(vm, exe, start, segments@, runs, e),
                }
            },
{
    let (runs, start, memory) = choose|
        runs: Seq<SegmentRun<F, VC::Executor>>,
        start: Handover<F>,
        memory: MemoryImage,
    |
        {
            &&& #[trigger] initial(vm.config, exe, input, start, memory)
            &&& #[trigger] crate::arch::vm::run::executes_all(
                vm,
                exe,
                start,
                segments@,
                runs,
                crate::arch::vm::run::kept(r),
            )
        };
    lemma_initial(vm.config, exe, input, start, memory);
    assert(chained(vm, exe, start, segments@, runs));
    if r is Err {
        lemma_stops(vm, exe, start, segments@, runs, r->Err_0);
    }
}

} // verus!
