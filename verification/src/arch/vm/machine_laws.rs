//! What a virtual machine proves and verifies.
use crate::arch::error::ExecutionError;
use crate::arch::vm::complex::{VmChipComplex, VmComplexTraceHeights};
use crate::arch::vm::config::VmConfig;
use crate::arch::vm::exe::VmExe;
use crate::arch::vm::executor::{
    chained, metered, spec_limits, Handover, SegmentRun, TracegenSegment,
};
use crate::arch::vm::executor_laws::{lemma_limits, lemma_metered, limits_of, meters, segments_of};
use crate::arch::vm::generate::{generates, VmCommittedExe};
use crate::arch::vm::generate_laws::{inputs_of, lemma_generates};
use crate::arch::vm::interpreter::{Interpreter, MeterLimits, MeteredOutcome, Segment};
use crate::arch::vm::machine::{verify_single, ProofEngine, VirtualMachine};
use crate::arch::vm::run::{initial, run_answers, GenerationError, VmExecutorResult};
use crate::arch::vm::run_meaning::{answer_of, lemma_answer, lemma_initial, starts_program};
use crate::arch::vm::streams::Streams;
use crate::arch::vm::verify::{
    check_segments, judges, lemma_segments_prefix, says, verdict_on, verify_boundaries,
    verify_segments, Boundary, JudgedProof, ProofVerifier, SegmentProof, Statement,
    VerifiedBoundary, VerifiedExecutionPayload, VmVerificationError, CHUNK,
};
use crate::arch::vm::verify_meaning::{
    accepted_by, all_sound, entries_complete, entries_distinct, law_accepted_exactly_if_sound,
    law_accepted_values, law_refused_for_a_cause, law_verified_segments, refused_at, spans,
    statements_of,
};
use crate::field::PrimeField32;
use crate::system::memory::MemoryImage;
use openvm_stark_backend::keygen::types::LinearConstraint;
use vstd::prelude::*;

verus! {

/// What segments state.
pub open spec fn stated<F, P>(proofs: Seq<SegmentProof<F, P>>) -> Seq<Statement<F>> {
    Seq::new(proofs.len(), |i: int| proofs[i].statement)
}

/// Every segment has at most one entry for each system AIR, with as many values as it takes.
pub open spec fn entries_fit<F: PrimeField32, P>(proofs: Seq<SegmentProof<F, P>>) -> bool {
    forall|i: int|
        0 <= i < proofs.len() ==> entries_distinct((#[trigger] proofs[i]).statement)
            && entries_complete(proofs[i].statement)
}

/// Proofs that are not refused are accepted by the proof system, and what they state is sound.
proof fn lemma_accepted<F: PrimeField32, E: ProofVerifier, U>(
    engine: E,
    vk: E::VerifyingKey,
    proofs: Seq<SegmentProof<F, E::Proof>>,
    b: Boundary,
)
    requires
        verdict_on(engine, vk, proofs, Ok::<Boundary, VmVerificationError<E::Error, U>>(b)),
        entries_fit(proofs),
    ensures
        proofs.len() > 0,
        forall|i: int|
            0 <= i < proofs.len() ==> accepted_by(engine, vk, (#[trigger] proofs[i]).proof),
        all_sound(stated(proofs)),
{
    let (judged, k) = choose|judged: Seq<JudgedProof<F, E::Error>>, k: int|
        {
            &&& #[trigger] judges(engine, vk, proofs, judged, k)
            &&& 0 < k <= proofs.len()
            &&& k == proofs.len()
            &&& Ok::<Boundary, VmVerificationError<E::Error, U>>(b) == check_segments::<
                F,
                E::Error,
                U,
            >(judged, k)
        };
    assert forall|i: int| 0 <= i < judged.len() implies entries_distinct(
        (#[trigger] judged[i]).statement,
    ) && entries_complete(judged[i].statement) by {
        assert(judged[i].statement == proofs[i].statement);
    }
    law_accepted_exactly_if_sound::<F, E::Error, U>(judged);
    assert(statements_of(judged) =~= stated(proofs));
    assert forall|i: int| 0 <= i < proofs.len() implies accepted_by(
        engine,
        vk,
        (#[trigger] proofs[i]).proof,
    ) by {
        assert(says(engine, vk, proofs[i].proof, judged[i].stark));
    }
}

/// Proofs are refused with a cause: none were given, or a segment of which the error says what is
/// wrong. Proofs that the proof system accepts, and that state what is sound, are not refused.
proof fn lemma_refused<F: PrimeField32, E: ProofVerifier, U>(
    engine: E,
    vk: E::VerifyingKey,
    proofs: Seq<SegmentProof<F, E::Proof>>,
    e: VmVerificationError<E::Error, U>,
)
    requires
        verdict_on(engine, vk, proofs, Err::<Boundary, VmVerificationError<E::Error, U>>(e)),
        entries_fit(proofs),
        proofs.len() <= usize::MAX,
    ensures
        proofs.len() == 0 <==> e is ProofNotFound,
        proofs.len() > 0 ==> blamed(engine, vk, proofs, e),
        proofs.len() > 0 ==> !(all_sound(stated(proofs)) && forall|
            i: int,
            verdict: Result<(), E::Error>,
        |
            0 <= i < proofs.len() && #[trigger] says(engine, vk, proofs[i].proof, verdict)
                ==> verdict is Ok),
{
    if proofs.len() > 0 {
        let (judged, k) = choose|judged: Seq<JudgedProof<F, E::Error>>, k: int|
            {
                &&& #[trigger] judges(engine, vk, proofs, judged, k)
                &&& 0 < k <= proofs.len()
                &&& Err::<Boundary, VmVerificationError<E::Error, U>>(e) == check_segments::<
                    F,
                    E::Error,
                    U,
                >(judged, k)
            };
        assert forall|i: int| 0 <= i < judged.len() implies entries_distinct(
            (#[trigger] judged[i]).statement,
        ) && entries_complete(judged[i].statement) by {
            assert(judged[i].statement == proofs[i].statement);
        }
        let i = law_refused_for_a_cause(judged, k, e);
        assert(judges(engine, vk, proofs, judged, i + 1));
        assert(blames(engine, vk, proofs, judged, i, e));
        if all_sound(stated(proofs)) && forall|i: int, verdict: Result<(), E::Error>|
            0 <= i < proofs.len() && #[trigger] says(engine, vk, proofs[i].proof, verdict)
                ==> verdict is Ok {
            let sound: Seq<JudgedProof<F, E::Error>> = Seq::new(
                proofs.len(),
                |j: int| JudgedProof { stark: Ok(()), statement: proofs[j].statement },
            );
            law_accepted_exactly_if_sound::<F, E::Error, U>(sound);
            assert(statements_of(sound) =~= stated(proofs));
            assert forall|j: int| 0 <= j < k implies #[trigger] sound[j] == judged[j] by {
                assert(says(engine, vk, proofs[j].proof, judged[j].stark));
                assert(judged[j].stark is Ok);
                assert(judged[j].statement == proofs[j].statement);
                let verdict = judged[j].stark;
                match verdict {
                    Ok(u) => {
                        assert(u == ());
                    },
                    Err(_) => {},
                }
            }
            lemma_segments_prefix::<F, E::Error, U>(sound, judged, k);
            lemma_prefix_accepted::<F, E::Error, U>(sound, k, proofs.len() as int);
        }
    }
}

/// If the checks of the first `n` segments succeed, so do those of fewer.
proof fn lemma_prefix_accepted<F: PrimeField32, S, U>(
    proofs: Seq<JudgedProof<F, S>>,
    k: int,
    n: int,
)
    requires
        0 <= k <= n,
        check_segments::<F, S, U>(proofs, n) is Ok,
    ensures
        check_segments::<F, S, U>(proofs, k) is Ok,
    decreases n,
{
    if k < n {
        assert(check_segments::<F, S, U>(proofs, n - 1) is Ok);
        lemma_prefix_accepted::<F, S, U>(proofs, k, n - 1);
    }
}

/// Segment `i` is the first that is refused: the proof system judged it and those before it, and `e`
/// says what is wrong with it.
pub open spec fn blames<F: PrimeField32, E: ProofVerifier, U>(
    engine: E,
    vk: E::VerifyingKey,
    proofs: Seq<SegmentProof<F, E::Proof>>,
    judged: Seq<JudgedProof<F, E::Error>>,
    i: int,
    e: VmVerificationError<E::Error, U>,
) -> bool {
    &&& 0 <= i < proofs.len()
    &&& judges(engine, vk, proofs, judged, i + 1)
    &&& refused_at(judged, i, e)
}

/// A segment is refused for what `e` says.
pub open spec fn blamed<F: PrimeField32, E: ProofVerifier, U>(
    engine: E,
    vk: E::VerifyingKey,
    proofs: Seq<SegmentProof<F, E::Proof>>,
    e: VmVerificationError<E::Error, U>,
) -> bool {
    exists|judged: Seq<JudgedProof<F, E::Error>>, i: int| #[trigger]
        blames(engine, vk, proofs, judged, i, e)
}

/// Segments are verified if the proof system accepts each, they are sound by themselves, and they go
/// on one where the other ended; and then the hash is that of their program, their first memory root
/// and their first program counter, and the memory root is their last. Segments that are not
/// verified are refused for what the error says, and sound ones that the proof system always accepts
/// are not refused.
pub proof fn law_segments_are_verified<
    F: PrimeField32,
    E: ProofVerifier,
    U,
    H: Fn([F; CHUNK], [F; CHUNK], F) -> [F; CHUNK],
>(
    engine: E,
    vk: E::VerifyingKey,
    proofs: &[SegmentProof<F, E::Proof>],
    h: H,
    r: Result<VerifiedExecutionPayload<F>, VmVerificationError<E::Error, U>>,
)
    requires
        entries_fit(proofs@),
        proofs@.len() <= usize::MAX,
        call_ensures(verify_segments::<F, E, U>, (&engine, &vk, proofs, h), r),
    ensures
        r is Ok ==> proofs@.len() > 0 && all_sound(stated(proofs@)),
        r is Ok ==> forall|i: int|
            0 <= i < proofs@.len() ==> accepted_by(engine, vk, (#[trigger] proofs@[i]).proof),
        r matches Ok(payload) ==> exists|
            program_commit: [F; CHUNK],
            initial_memory_root: [F; CHUNK],
            start_pc: F,
        |
            {
                &&& #[trigger] call_ensures(
                    h,
                    (program_commit, initial_memory_root, start_pc),
                    payload.exe_commit,
                )
                &&& spans(
                    stated(proofs@),
                    program_commit,
                    initial_memory_root,
                    start_pc,
                    payload.final_memory_root,
                )
            },
        r matches Err(e) ==> (proofs@.len() == 0 <==> e is ProofNotFound),
        r matches Err(e) ==> (proofs@.len() > 0 ==> blamed(engine, vk, proofs@, e)),
        proofs@.len() > 0 && all_sound(stated(proofs@)) && (forall|
            i: int,
            verdict: Result<(), E::Error>,
        |
            0 <= i < proofs@.len() && #[trigger] says(engine, vk, proofs@[i].proof, verdict)
                ==> verdict is Ok) ==> r is Ok,
{
    match r {
        Ok(payload) => {
            law_verified_segments::<F, E, U, H>(engine, vk, proofs@, h, payload);
            assert(stated(proofs@) =~= Seq::new(proofs@.len(), |i: int| proofs@[i].statement));
        },
        Err(e) => {
            lemma_refused::<F, E, U>(engine, vk, proofs@, e);
        },
    }
}

/// Judged proofs are accepted exactly if there are some, the proof system accepts each, and what they
/// state is sound; then the values are those that they span. A refusal is for what the error says.
pub proof fn law_boundaries_are_verified<F: PrimeField32, S, U>(
    proofs: Vec<JudgedProof<F, S>>,
    r: Result<VerifiedBoundary<F>, VmVerificationError<S, U>>,
)
    requires
        forall|i: int|
            0 <= i < proofs@.len() ==> entries_distinct((#[trigger] proofs@[i]).statement) && (
            proofs@[i].stark is Ok ==> entries_complete(proofs@[i].statement)),
        proofs@.len() <= usize::MAX,
        call_ensures(verify_boundaries::<F, S, U>, (proofs,), r),
    ensures
        r is Ok <==> proofs@.len() > 0 && all_sound(statements_of(proofs@)) && (forall|i: int|
            0 <= i < proofs@.len() ==> (#[trigger] proofs@[i]).stark is Ok),
        r matches Ok(v) ==> spans(
            statements_of(proofs@),
            v.program_commit,
            v.initial_memory_root,
            v.start_pc,
            v.final_memory_root,
        ),
        r matches Err(e) ==> (proofs@.len() == 0 <==> e is ProofNotFound),
        r matches Err(e) ==> (proofs@.len() > 0 ==> exists|i: int|
            0 <= i < proofs@.len() && #[trigger] refused_at(proofs@, i, e)),
{
    if proofs@.len() > 0 {
        law_accepted_exactly_if_sound::<F, S, U>(proofs@);
        match r {
            Ok(v) => {
                law_accepted_values::<F, S, U>(proofs@, v);
            },
            Err(e) => {
                let i = law_refused_for_a_cause(proofs@, proofs@.len() as int, e);
                assert(refused_at(proofs@, i, e));
            },
        }
    }
}

/// A machine with continuations verifies segments as a whole; one without has the proof system judge
/// its one proof, and gives that verdict.
pub proof fn law_machine_verifies<
    F: PrimeField32,
    E: ProofVerifier,
    VC: VmConfig<F>,
    U,
    H: Fn([F; CHUNK], [F; CHUNK], F) -> [F; CHUNK],
>(
    vm: VirtualMachine<E, F, VC>,
    vk: E::VerifyingKey,
    proofs: Vec<SegmentProof<F, E::Proof>>,
    h: H,
    r: Result<(), VmVerificationError<E::Error, U>>,
)
    requires
        entries_fit(proofs@),
        proofs@.len() <= usize::MAX,
        call_ensures(VirtualMachine::<E, F, VC>::verify::<U>, (&vm, &vk, proofs, h), r),
    ensures
        vm.executor.config.spec_system().continuation_enabled ==> {
            &&& r is Ok ==> proofs@.len() > 0 && all_sound(stated(proofs@))
            &&& r is Ok ==> forall|i: int|
                0 <= i < proofs@.len() ==> accepted_by(
                    vm.engine,
                    vk,
                    (#[trigger] proofs@[i]).proof,
                )
            &&& r matches Err(e) ==> (proofs@.len() == 0 <==> e is ProofNotFound)
            &&& r matches Err(e) ==> (proofs@.len() > 0 ==> blamed(vm.engine, vk, proofs@, e))
            &&& proofs@.len() > 0 && all_sound(stated(proofs@)) && (forall|
                i: int,
                verdict: Result<(), E::Error>,
            |
                0 <= i < proofs@.len() && #[trigger] says(vm.engine, vk, proofs@[i].proof, verdict)
                    ==> verdict is Ok) ==> r is Ok
        },
        !vm.executor.config.spec_system().continuation_enabled ==> {
            &&& r is Ok ==> call_ensures(
                E::verify,
                (&vm.engine, &vk, &proofs@[0].proof),
                Ok::<(), E::Error>(()),
            )
            &&& r matches Err(e) ==> (e matches VmVerificationError::StarkError(f) && call_ensures(
                E::verify,
                (&vm.engine, &vk, &proofs@[0].proof),
                Err::<(), E::Error>(f),
            ))
        },
{
    if vm.executor.config.spec_system().continuation_enabled {
        let b = choose|b: Result<Boundary, VmVerificationError<E::Error, U>>|
            {
                &&& #[trigger] verdict_on(vm.engine, vk, proofs@, b)
                &&& match (b, r) {
                    (Ok(_), Ok(_)) => true,
                    (Err(e), Err(f)) => e == f,
                    _ => false,
                }
            };
        match b {
            Ok(boundary) => {
                lemma_accepted::<F, E, U>(vm.engine, vk, proofs@, boundary);
            },
            Err(e) => {
                lemma_refused::<F, E, U>(vm.engine, vk, proofs@, e);
            },
        }
    } else {
        let verdict = choose|verdict: Result<(), E::Error>|
            {
                &&& #[trigger] says(vm.engine, vk, proofs@[0].proof, verdict)
                &&& match (verdict, r) {
                    (Ok(_), Ok(_)) => true,
                    (Err(e), Err(f)) => f == VmVerificationError::<E::Error, U>::StarkError(e),
                    _ => false,
                }
            };
        match verdict {
            Ok(u) => {
                assert(u == ());
            },
            Err(_) => {},
        }
    }
}

/// The verdict on a single proof is that of the proof system.
pub proof fn law_verify_single<E: ProofVerifier>(
    engine: E,
    vk: E::VerifyingKey,
    proof: E::Proof,
    r: Result<(), E::Error>,
)
    requires
        call_ensures(verify_single::<E>, (&engine, &vk, &proof), r),
    ensures
        call_ensures(E::verify, (&engine, &vk, &proof), r),
{
    assert(says(engine, vk, proof, r));
}

/// A new machine has the proof system and the configuration, no constraints, and the heights that it
/// was given, if any.
pub proof fn law_new_machine<F: PrimeField32, E: ProofEngine<F>, VC: VmConfig<F>>(
    engine: E,
    config: VC,
    heights: Option<VmComplexTraceHeights>,
    plain: VirtualMachine<E, F, VC>,
    overridden: VirtualMachine<E, F, VC>,
    c: &VC,
)
    requires
        call_ensures(VirtualMachine::<E, F, VC>::new, (engine, config), plain),
        call_ensures(
            VirtualMachine::<E, F, VC>::new_with_overridden_trace_heights,
            (engine, config, heights),
            overridden,
        ),
        call_ensures(VirtualMachine::<E, F, VC>::config, (&plain,), c),
    ensures
        plain.engine == engine,
        plain.executor.config == config,
        plain.executor.overridden_heights is None,
        plain.executor.trace_height_constraints@.len() == 0,
        overridden.engine == engine,
        overridden.executor.config == config,
        overridden.executor.overridden_heights == heights,
        overridden.executor.trace_height_constraints@.len() == 0,
        *c == config,
{
}

/// Setting the constraints of a machine changes nothing else.
pub proof fn law_machine_constraints<F: PrimeField32, E: ProofEngine<F>, VC: VmConfig<F>>(
    vm: &mut VirtualMachine<E, F, VC>,
    constraints: Vec<LinearConstraint>,
)
    requires
        call_ensures(
            VirtualMachine::<E, F, VC>::set_trace_height_constraints,
            (vm, constraints),
            (),
        ),
    ensures
        final(vm).executor.trace_height_constraints == constraints,
        final(vm).executor.config == old(vm).executor.config,
        final(vm).executor.overridden_heights == old(vm).executor.overridden_heights,
        final(vm).engine == old(vm).engine,
{
}

/// The proving key of a machine is that of the chips of its configuration.
pub proof fn law_keygen<F: PrimeField32, E: ProofEngine<F>, VC: VmConfig<F>>(
    vm: VirtualMachine<E, F, VC>,
    pk: E::ProvingKey,
)
    requires
        call_ensures(VirtualMachine::<E, F, VC>::keygen, (&vm,), pk),
    ensures
        exists|c: VmChipComplex<F, VC::Executor>|
            {
                &&& #[trigger] vm.executor.config.creates(Ok(c))
                &&& call_ensures(E::generate_pk::<VC::Executor>, (&vm.engine, &c), pk)
            },
{
}

/// A committed program is the program with the commitment of the proof system to it.
pub proof fn law_commit_exe<F: PrimeField32, E: ProofEngine<F>, VC: VmConfig<F>>(
    vm: VirtualMachine<E, F, VC>,
    exe: VmExe<F>,
    r: VmCommittedExe<F, E::Commitment>,
)
    requires
        call_ensures(VirtualMachine::<E, F, VC>::commit_exe, (&vm, exe), r),
    ensures
        r.exe == exe,
        call_ensures(E::commit, (&vm.engine, &exe.program), r.committed_program),
{
}

/// A single segment is proved by the proof system.
pub proof fn law_prove_single<F: PrimeField32, E: ProofEngine<F>, VC: VmConfig<F>>(
    vm: VirtualMachine<E, F, VC>,
    pk: E::ProvingKey,
    input: E::ProofInput,
    r: E::Proof,
)
    requires
        call_ensures(VirtualMachine::<E, F, VC>::prove_single, (&vm, &pk, input), r),
    ensures
        call_ensures(E::prove, (&vm.engine, &pk, input), r),
{
}

/// Each segment has a proof, and proof `i` is of the input of segment `i`.
pub proof fn law_prove<F: PrimeField32, E: ProofEngine<F>, VC: VmConfig<F>>(
    vm: VirtualMachine<E, F, VC>,
    pk: E::ProvingKey,
    results: VmExecutorResult<E::ProofInput>,
    r: Vec<E::Proof>,
    i: int,
)
    requires
        call_ensures(VirtualMachine::<E, F, VC>::prove, (&vm, &pk, results), r),
    ensures
        r@.len() == results.per_segment@.len(),
        0 <= i < results.per_segment@.len() ==> call_ensures(
            E::prove,
            (&vm.engine, &pk, results.per_segment@[i]),
            r@[i],
        ),
{
    if 0 <= i < r@.len() {
        let proof = r@[i];
    }
}

/// A machine meters programs within the limits of its configuration.
pub proof fn law_machine_metered<
    F: PrimeField32,
    E: ProofEngine<F>,
    VC: VmConfig<F>,
    I: Interpreter<F, VC>,
>(
    vm: VirtualMachine<E, F, VC>,
    exe: VmExe<F>,
    input: Streams<F>,
    interactions: &[usize],
    r: Result<Vec<Segment>, ExecutionError>,
)
    requires
        call_ensures(
            VirtualMachine::<E, F, VC>::execute_metered::<I>,
            (&vm, exe, input, interactions),
            r,
        ),
    ensures
        exists|
            limits: MeterLimits,
            interpreter: I,
            chips: VmChipComplex<F, VC::Executor>,
            outcome: Result<MeteredOutcome, ExecutionError>,
        |
            {
                &&& #[trigger] meters(
                    vm.executor.config,
                    exe,
                    interactions,
                    limits,
                    input,
                    interpreter,
                    chips,
                    outcome,
                )
                &&& limits_of(
                    vm.executor.config.spec_system().segmentation_limits.max_trace_height,
                    vm.executor.config.spec_system().segmentation_limits.max_cells,
                    limits,
                )
                &&& segments_of(outcome, r)
            },
{
    let config = vm.executor.config;
    let limits = spec_limits(config.spec_system());
    let outcome = choose|outcome: Result<MeteredOutcome, ExecutionError>|
        {
            &&& #[trigger] metered::<F, VC, I>(config, exe, interactions, limits, input, outcome)
            &&& r == (match outcome {
                Err(e) => Err(e),
                Ok(outcome) => outcome.spec_into_segments(),
            })
        };
    lemma_metered::<F, VC, I>(config, exe, interactions, limits, input, outcome);
    lemma_limits(config.spec_system());
}

/// A machine starts the program, executes the planned segments one after the other, and answers as
/// the last one ended.
pub proof fn law_machine_executes<F: PrimeField32, E: ProofEngine<F>, VC: VmConfig<F>>(
    vm: VirtualMachine<E, F, VC>,
    exe: VmExe<F>,
    input: Streams<F>,
    segments: &[Segment],
    r: Result<Option<MemoryImage>, ExecutionError>,
)
    requires
        exe.init_memory.wf(),
        segments@.len() > 0,
        call_ensures(VirtualMachine::<E, F, VC>::execute, (&vm, &exe, input, segments), r),
    ensures
        exists|runs: Seq<SegmentRun<F, VC::Executor>>, start: Handover<F>|
            {
                &&& #[trigger] chained(vm.executor, exe, start, segments@, runs)
                &&& starts_program::<F, VC>(
                    exe,
                    vm.executor.config.spec_system().memory_config.addr_space_sizes@,
                    input,
                    start,
                )
                &&& answer_of(vm.executor, exe, start, segments@, runs, r)
            },
{
    let (runs, start, memory) = choose|
        runs: Seq<SegmentRun<F, VC::Executor>>,
        start: Handover<F>,
        memory: MemoryImage,
    |
        {
            &&& #[trigger] initial(vm.executor.config, exe, input, start, memory)
            &&& #[trigger] run_answers(vm.executor, exe, start, segments@, runs, r)
        };
    lemma_initial(vm.executor.config, exe, input, start, memory);
    lemma_answer(vm.executor, exe, start, segments@, runs, r);
    assert(chained(vm.executor, exe, start, segments@, runs));
}

/// A machine starts the program, executes the planned segments one after the other and gives each, in
/// order, to `generate`.
pub proof fn law_machine_generates<
    F: PrimeField32,
    E: ProofEngine<F>,
    VC: VmConfig<F>,
    G: Fn(usize, TracegenSegment<F, VC::Executor>) -> Result<E::ProofInput, GenerationError>,
>(
    vm: VirtualMachine<E, F, VC>,
    exe: VmExe<F>,
    input: Streams<F>,
    segments: &[Segment],
    generate: G,
    r: Result<VmExecutorResult<E::ProofInput>, GenerationError>,
)
    requires
        exe.init_memory.wf(),
        call_ensures(
            VirtualMachine::<E, F, VC>::execute_and_generate::<G>,
            (&vm, &exe, input, segments, generate),
            r,
        ),
    ensures
        exists|runs: Seq<SegmentRun<F, VC::Executor>>, start: Handover<F>|
            {
                &&& #[trigger] chained(vm.executor, exe, start, segments@, runs)
                &&& starts_program::<F, VC>(
                    exe,
                    vm.executor.config.spec_system().memory_config.addr_space_sizes@,
                    input,
                    start,
                )
                &&& inputs_of(vm.executor, exe, start, segments@, runs, generate, r)
            },
{
    let (runs, start, memory) = choose|
        runs: Seq<SegmentRun<F, VC::Executor>>,
        start: Handover<F>,
        memory: MemoryImage,
    |
        {
            &&& #[trigger] initial(vm.executor.config, exe, input, start, memory)
            &&& #[trigger] generates(vm.executor, exe, start, segments@, runs, generate, r)
        };
    lemma_initial(vm.executor.config, exe, input, start, memory);
    lemma_generates(vm.executor, exe, start, segments@, runs, generate, r);
}

} // verus!
