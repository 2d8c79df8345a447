//! Laws of runs over segments.
use crate::arch::error::ExecutionError;
use crate::arch::segment_executor::{exit_code_of, law_terminate_ends, law_tracegen_segment};
use crate::arch::vm::complex::VmChipComplex;
use crate::arch::vm::config::VmConfig;
use crate::arch::vm::control::{begin_state, begun, end_state, InstructionExecutor};
use crate::arch::vm::exe::VmExe;
use crate::arch::vm::executor::{
    before_run, breaks, chained, contiguous, fails_in, link, set_up, Handover, SegmentRun,
    VmExecutor,
};
use crate::arch::vm::exit::DEFAULT_SUSPEND_EXIT_CODE;
use crate::arch::vm::interpreter::Segment;
use crate::arch::vm::run::run_answers;
use crate::arch::vm::verify::{
    check_segments, exit_code, final_pc, final_root, has_air, initial_pc, initial_root,
    is_terminate, Boundary, JudgedProof, VmVerificationError, CONNECTOR_AIR_ID, MERKLE_AIR_ID,
    PROGRAM_AIR_ID,
};
use crate::arch::vm::verify_laws::{
    chain_good, connector, continues, is_system, law_verify_segments, merkle, segment_good,
    system_airs_distinct,
};
use crate::field::PrimeField32;
use crate::instructions::{Instruction, TERMINATE_OPCODE};
use crate::system::memory::MemoryImage;
use vstd::prelude::*;

verus! {

/// Consecutive segments meet: each begins at the program counter and with the memory with which
/// the one before it ended.
pub proof fn law_segments_meet<F: PrimeField32, VC: VmConfig<F>>(
    vm: VmExecutor<F, VC>,
    exe: VmExe<F>,
    start: Handover<F>,
    segments: Seq<Segment>,
    runs: Seq<SegmentRun<F, VC::Executor>>,
    i: int,
)
    requires
        chained(vm, exe, start, segments, runs),
        0 < i < runs.len(),
    ensures
        runs[i - 1].executor.chip_complex.end is Some,
        runs[i].executor.chip_complex.begin == Some(
            begin_state(runs[i - 1].executor.chip_complex.end->0.pc),
        ),
        runs[i].executor.chip_complex.initial_memory is Some,
        runs[i].executor.chip_complex.initial_memory->0@ == runs[i
            - 1].executor.chip_complex.memory@,
        runs[i].first.streams == runs[i - 1].last.streams,
        runs[i].first.rng == runs[i - 1].last.rng,
{
    reveal(link);
    assert(link(
        vm,
        exe,
        before_run(start, runs, i - 1),
        segments[i - 1],
        runs[i - 1],
    ));
    assert(link(
        vm,
        exe,
        before_run(start, runs, i),
        segments[i],
        runs[i],
    ));
}

/// With continuations, every segment up to the one in which the program ends starts at the
/// instruction count of the plan.
pub proof fn law_plan_followed<F: PrimeField32, VC: VmConfig<F>>(
    vm: VmExecutor<F, VC>,
    exe: VmExe<F>,
    start: Handover<F>,
    segments: Seq<Segment>,
    runs: Seq<SegmentRun<F, VC::Executor>>,
    i: int,
)
    requires
        chained(vm, exe, start, segments, runs),
        contiguous(segments, start.instret),
        0 <= i < runs.len(),
        forall|j: int| 0 <= j < i ==> exit_code_of((#[trigger] runs[j]).last) is None,
    ensures
        runs[i].first.instret == segments[i].instret_start,
    decreases i,
{
    reveal(link);
    assert(link(
        vm,
        exe,
        before_run(start, runs, i),
        segments[i],
        runs[i],
    ));
    if i > 0 {
        law_plan_followed(vm, exe, start, segments, runs, i - 1);
        assert(link(
            vm,
            exe,
            before_run(start, runs, i - 1),
            segments[i - 1],
            runs[i - 1],
        ));
        assert(exit_code_of(runs[i - 1].last) is None);
        assert(segments[(i - 1) + 1].instret_start == segments[i - 1].instret_start + segments[i
            - 1].num_insns);
    }
}

/// The end of a segment says whether the program ended: it carries the exit code of the program,
/// or that of a segment that goes on.
pub proof fn law_end_is_recorded<F: PrimeField32, VC: VmConfig<F>>(
    vm: VmExecutor<F, VC>,
    exe: VmExe<F>,
    start: Handover<F>,
    segments: Seq<Segment>,
    runs: Seq<SegmentRun<F, VC::Executor>>,
    i: int,
)
    requires
        chained(vm, exe, start, segments, runs),
        0 <= i < runs.len(),
    ensures
        ({
            let end = runs[i].executor.chip_complex.end;
            match exit_code_of(runs[i].last) {
                Some(code) => end == Some(end_state(runs[i].last.pc, Some(code)))
                    && end->0.is_terminate == 1 && end->0.exit_code == code,
                None => end == Some(end_state(runs[i].last.pc, None)) && end->0.is_terminate == 0
                    && end->0.exit_code == DEFAULT_SUSPEND_EXIT_CODE,
            }
        }),
{
    reveal(link);
    assert(link(
        vm,
        exe,
        before_run(start, runs, i),
        segments[i],
        runs[i],
    ));
}

/// A proof states what a segment did: the proof system accepts it, the connector has the states at
/// both ends of the segment, the memory tree has the roots of the memory there, and no other AIR
/// has public values.
pub open spec fn states_run<F: PrimeField32, S, X: InstructionExecutor<F>>(
    proof: JudgedProof<F, S>,
    run: SegmentRun<F, X>,
    commit: Seq<int>,
    root: spec_fn(Seq<Seq<u32>>) -> Seq<int>,
) -> bool {
    let airs = proof.airs();
    let complex = run.executor.chip_complex;
    &&& proof.stark is Ok
    &&& proof.commit() == commit
    &&& system_airs_distinct(airs)
    &&& has_air(airs, PROGRAM_AIR_ID)
    &&& has_air(airs, CONNECTOR_AIR_ID)
    &&& has_air(airs, MERKLE_AIR_ID)
    &&& forall|k: int|
        0 <= k < airs.len() && !is_system(#[trigger] airs[k]) ==> airs[k].pvs.len() == 0
    &&& initial_pc(connector(airs).pvs) == complex.begin->0.pc
    &&& final_pc(connector(airs).pvs) == complex.end->0.pc
    &&& is_terminate(connector(airs).pvs) == complex.end->0.is_terminate
    &&& exit_code(connector(airs).pvs) == complex.end->0.exit_code
    &&& initial_root(merkle(airs).pvs) == root(complex.initial_memory->0@)
    &&& final_root(merkle(airs).pvs) == root(complex.memory@)
}

/// Proofs that state what the segments of a successful run did are accepted, and what is read off
/// them is where the run started and how it ended.
pub proof fn law_run_verifies<F: PrimeField32, VC: VmConfig<F>, S, U>(
    vm: VmExecutor<F, VC>,
    exe: VmExe<F>,
    start: Handover<F>,
    segments: Seq<Segment>,
    runs: Seq<SegmentRun<F, VC::Executor>>,
    proofs: Seq<JudgedProof<F, S>>,
    commit: Seq<int>,
    root: spec_fn(Seq<Seq<u32>>) -> Seq<int>,
)
    requires
        chained(vm, exe, start, segments, runs),
        proofs.len() == runs.len() > 0,
        forall|i: int|
            0 <= i < runs.len() ==> states_run(#[trigger] proofs[i], runs[i], commit, root),
        forall|i: int| 0 <= i < runs.len() - 1 ==> exit_code_of((#[trigger] runs[i]).last) is None,
        exit_code_of(runs.last().last) == Some(0u32),
    ensures
        check_segments::<F, S, U>(proofs, proofs.len() as int) == Ok::<
            Boundary,
            VmVerificationError<S, U>,
        >(
            Boundary {
                program_commit: Some(commit),
                start_pc: Some(start.pc as int),
                initial_root: Some(root(start.memory)),
                final_pc: Some(runs.last().last.pc as int),
                final_root: Some(root(runs.last().executor.chip_complex.memory@)),
            },
        ),
{
    let n = proofs.len() as int;
    assert forall|i: int| 0 <= i < n implies segment_good(i == n - 1, #[trigger] proofs[i]) by {
        assert(states_run(proofs[i], runs[i], commit, root));
        law_end_is_recorded(vm, exe, start, segments, runs, i);
        if i < n - 1 {
            assert(exit_code_of(runs[i].last) is None);
        }
    }
    assert forall|i: int| 0 < i < n implies continues(proofs[i - 1], #[trigger] proofs[i]) by {
        assert(states_run(proofs[i], runs[i], commit, root));
        assert(states_run(proofs[i - 1], runs[i - 1], commit, root));
        law_segments_meet(vm, exe, start, segments, runs, i);
    }
    assert forall|i: int| 0 <= i < n implies system_airs_distinct((#[trigger] proofs[i]).airs()) by {
        assert(states_run(proofs[i], runs[i], commit, root));
    }
    law_verify_segments::<F, S, U>(proofs);
    assert(chain_good(proofs, n));
    assert(states_run(proofs[0], runs[0], commit, root));
    assert(states_run(proofs[n - 1], runs[n - 1], commit, root));
    law_end_is_recorded(vm, exe, start, segments, runs, n - 1);
    assert(link(vm, exe, before_run(start, runs, 0), segments[0], runs[0]));
    reveal(link);
}

/// The chips execute the instructions of the program that they were set up with.
proof fn lemma_set_up_instruction<F: PrimeField32, VC: VmConfig<F>>(
    config: VC,
    exe: VmExe<F>,
    memory: Seq<Seq<u32>>,
    heights: Option<Seq<u32>>,
    chips: VmChipComplex<F, VC::Executor>,
    pc: u32,
)
    requires
        exe.program.step > 0,
        set_up(config, exe, Some(memory), heights, chips),
    ensures
        chips.program.spec_get_instruction(pc) == exe.program.spec_get_instruction(pc),
        chips.memory@ == memory,
{
    reveal(set_up);
    let (distance, step) = (pc - exe.program.pc_base, exe.program.step as int);
    assert(distance >= 0 ==> distance / step >= 0) by (nonlinear_arith)
        requires
            step > 0,
    ;
}

/// A program whose first instruction ends it succeeds, with the memory with which it started, or
/// fails by its exit code, whatever executes the instructions.
pub proof fn law_program_that_ends_at_once<F: PrimeField32, VC: VmConfig<F>>(
    vm: VmExecutor<F, VC>,
    exe: VmExe<F>,
    start: Handover<F>,
    segment: Segment,
    runs: Seq<SegmentRun<F, VC::Executor>>,
    r: Result<Option<MemoryImage>, ExecutionError>,
    instruction: Instruction<F>,
)
    requires
        run_answers(vm, exe, start, seq![segment], runs, r),
        exe.program.step > 0,
        segment.num_insns > 0,
        start.instret + segment.num_insns <= u64::MAX,
        exe.program.spec_get_instruction(start.pc) == Ok::<Instruction<F>, ExecutionError>(
            instruction,
        ),
        instruction.opcode.index == TERMINATE_OPCODE,
    ensures
        instruction.c.val() == 0 ==> r is Ok && r->Ok_0 is Some && r->Ok_0->0@ == start.memory,
        instruction.c.val() != 0 ==> r == Err::<Option<MemoryImage>, ExecutionError>(
            ExecutionError::FailedWithExitCode(instruction.c.val() as u32),
        ),
{
    let segments = seq![segment];
    F::order_is_prime();
    instruction.c.val_is_canonical();
    let heights = Some(segment.trace_heights@);
    if runs.len() == 1 {
        let run = runs[0];
        assert(link(vm, exe, before_run(start, runs, 0), segments[0], run));
        reveal(link);
        lemma_set_up_instruction(vm.config, exe, start.memory, heights, run.chips, start.pc);
        law_tracegen_segment(
            run.executor.ctrl,
            run.chips,
            run.first,
            run.executor.chip_complex,
            run.last,
            None,
        );
        law_terminate_ends(
            run.executor.ctrl,
            (run.first, begun(run.chips, run.first.pc)),
            (run.last, VmChipComplex { end: run.chips.end, ..run.executor.chip_complex }),
            None,
            instruction,
        );
    } else {
        let e = r->Err_0;
        assert(breaks(vm, exe, before_run(start, runs, 0), segments[0], e));
        reveal(breaks);
        let run = choose|run: SegmentRun<F, VC::Executor>| #[trigger]
            fails_in(vm, exe, start, segment, run, e);
        lemma_set_up_instruction(vm.config, exe, start.memory, heights, run.chips, start.pc);
        law_tracegen_segment(
            run.executor.ctrl,
            run.chips,
            run.first,
            run.executor.chip_complex,
            run.last,
            Some(e),
        );
        law_terminate_ends(
            run.executor.ctrl,
            (run.first, begun(run.chips, run.first.pc)),
            (run.last, VmChipComplex { end: run.chips.end, ..run.executor.chip_complex }),
            Some(e),
            instruction,
        );
    }
}

} // verus!
