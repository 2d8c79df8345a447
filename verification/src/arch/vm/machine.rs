//! The virtual machine with its proof system.
use crate::arch::error::ExecutionError;
use crate::arch::vm::complex::{VmChipComplex, VmComplexTraceHeights};
use crate::arch::vm::config::VmConfig;
use crate::arch::vm::exe::{Program, VmExe};
use crate::arch::vm::executor::{
    chips_take, executable, metered, spec_limits, Handover, SegmentRun, TracegenSegment,
    VmExecutor,
};
use crate::arch::vm::generate::{generates, VmCommittedExe};
use crate::arch::vm::interpreter::{Interpreter, MeteredOutcome, Segment};
use crate::arch::vm::run::{initial, memory_fits, run_answers, GenerationError, VmExecutorResult};
use crate::arch::vm::streams::Streams;
use crate::arch::vm::verify::{
    accepts_shaped, says, verdict_on, verify_segments, Boundary, ProofVerifier, SegmentProof,
    VmVerificationError, CHUNK,
};
use crate::field::PrimeField32;
use crate::system::memory::MemoryImage;
use openvm_stark_backend::keygen::types::LinearConstraint;
use vstd::prelude::*;

verus! {

/// A proof system.
pub trait ProofEngine<F>: ProofVerifier {
    type ProvingKey;

    type ProofInput;

    /// A commitment to a program.
    type Commitment;

    /// Makes the proving key of chips.
    fn generate_pk<X>(&self, complex: &VmChipComplex<F, X>) -> Self::ProvingKey;

    fn prove(&self, pk: &Self::ProvingKey, proof_input: Self::ProofInput) -> Self::Proof;

    fn commit(&self, program: &Program<F>) -> Self::Commitment;
}

/// A virtual machine.
pub struct VirtualMachine<E, F, VC> {
    /// The proof system.
    pub engine: E,
    /// Executes programs.
    pub executor: VmExecutor<F, VC>,
}

impl<F: PrimeField32, E: ProofEngine<F>, VC: VmConfig<F>> VirtualMachine<E, F, VC> {
    pub fn new(engine: E, config: VC) -> (r: Self)
        ensures
            r.engine == engine,
            r.executor.config == config,
            r.executor.overridden_heights is None,
            r.executor.trace_height_constraints@ == Seq::<LinearConstraint>::empty(),
    {
        VirtualMachine { engine, executor: VmExecutor::new(config) }
    }

    pub fn new_with_overridden_trace_heights(
        engine: E,
        config: VC,
        overridden_heights: Option<VmComplexTraceHeights>,
    ) -> (r: Self)
        ensures
            r.engine == engine,
            r.executor.config == config,
            r.executor.overridden_heights == overridden_heights,
            r.executor.trace_height_constraints@ == Seq::<LinearConstraint>::empty(),
    {
        let executor = VmExecutor::new_with_overridden_trace_heights(config, overridden_heights);
        VirtualMachine { engine, executor }
    }

    pub fn config(&self) -> (r: &VC)
        ensures
            *r == self.executor.config,
    {
        &self.executor.config
    }

    /// Makes the proving key of the machine.
    pub fn keygen(&self) -> (r: E::ProvingKey)
        requires
            chips_take::<F, VC>(self.executor.config, None),
        ensures
            exists|c: VmChipComplex<F, VC::Executor>| #[trigger]
                self.executor.config.creates(Ok(c)) && call_ensures(
                    E::generate_pk::<VC::Executor>,
                    (&self.engine, &c),
                    r,
                ),
    {
        let chip_complex = self.config().create_chip_complex().unwrap();
        assert(self.executor.config.creates(Ok(chip_complex)));
        self.engine.generate_pk(&chip_complex)
    }

    pub fn set_trace_height_constraints(&mut self, trace_height_constraints: Vec<LinearConstraint>)
        ensures
            *final(self) == (VirtualMachine {
                executor: VmExecutor {
                    trace_height_constraints,
                    ..old(self).executor
                },
                ..*old(self)
            }),
    {
        self.executor.set_trace_height_constraints(trace_height_constraints);
    }

    /// Commits to a program.
    pub fn commit_exe(&self, exe: VmExe<F>) -> (r: VmCommittedExe<F, E::Commitment>)
        ensures
            r.exe == exe,
            call_ensures(E::commit, (&self.engine, &exe.program), r.committed_program),
    {
        let committed_program = self.engine.commit(&exe.program);
        VmCommittedExe { exe, committed_program }
    }

    /// Executes a program without chips and finds its segments.
    pub fn execute_metered<I: Interpreter<F, VC>>(
        &self,
        exe: VmExe<F>,
        input: Streams<F>,
        interactions: &[usize],
    ) -> (r: Result<Vec<Segment>, ExecutionError>)
        requires
            chips_take::<F, VC>(self.executor.config, None),
        ensures
            exists|outcome: Result<MeteredOutcome, ExecutionError>|
                {
                    &&& #[trigger] metered::<F, VC, I>(
                        self.executor.config,
                        exe,
                        interactions,
                        spec_limits(self.executor.config.spec_system()),
                        input,
                        outcome,
                    )
                    &&& r == (match outcome {
                        Err(e) => Err(e),
                        Ok(outcome) => outcome.spec_into_segments(),
                    })
                },
    {
        self.executor.execute_metered::<I>(exe, input, interactions)
    }

    /// Executes the planned segments of a program from its start and checks that it ended with
    /// success.
    pub fn execute(&self, exe: &VmExe<F>, input: Streams<F>, segments: &[Segment]) -> (r: Result<
        Option<MemoryImage>,
        ExecutionError,
    >)
        requires
            memory_fits(self.executor.config, *exe),
            executable(self.executor.config, *exe, 0, segments@),
        ensures
            exists|
                runs: Seq<SegmentRun<F, VC::Executor>>,
                start: Handover<F>,
                memory: MemoryImage,
            |
                {
                    &&& #[trigger] initial(self.executor.config, *exe, input, start, memory)
                    &&& #[trigger] run_answers(
                        self.executor,
                        *exe,
                        start,
                        segments@,
                        runs,
                        r,
                    )
                },
    {
        self.executor.execute(exe, input, segments)
    }

    /// Executes the planned segments of a program from its start and generates the input of the
    /// proof of each.
    pub fn execute_and_generate<
        G: Fn(usize, TracegenSegment<F, VC::Executor>) -> Result<E::ProofInput, GenerationError>,
    >(&self, exe: &VmExe<F>, input: Streams<F>, segments: &[Segment], generate: G) -> (r: Result<
        VmExecutorResult<E::ProofInput>,
        GenerationError,
    >)
        requires
            memory_fits(self.executor.config, *exe),
            executable(self.executor.config, *exe, 0, segments@),
            forall|i: usize, segment: TracegenSegment<F, VC::Executor>|
                #![trigger call_requires(generate, (i, segment))]
                call_requires(generate, (i, segment)),
        ensures
            exists|
                runs: Seq<SegmentRun<F, VC::Executor>>,
                start: Handover<F>,
                memory: MemoryImage,
            |
                {
                    &&& #[trigger] initial(self.executor.config, *exe, input, start, memory)
                    &&& #[trigger] generates(
                        self.executor,
                        *exe,
                        start,
                        segments@,
                        runs,
                        generate,
                        r,
                    )
                },
    {
        self.executor.execute_and_generate(exe, input, segments, generate)
    }

    pub fn prove_single(&self, pk: &E::ProvingKey, proof_input: E::ProofInput) -> (r: E::Proof)
        ensures
            call_ensures(E::prove, (&self.engine, pk, proof_input), r),
    {
        self.engine.prove(pk, proof_input)
    }

    /// Proves every segment, in order.
    pub fn prove(&self, pk: &E::ProvingKey, results: VmExecutorResult<E::ProofInput>) -> (r: Vec<
        E::Proof,
    >)
        ensures
            r@.len() == results.per_segment@.len(),
            forall|i: int|
                0 <= i < r@.len() ==> call_ensures(
                    E::prove,
                    (&self.engine, pk, results.per_segment@[i]),
                    #[trigger] r@[i],
                ),
    {
        let mut proofs: Vec<E::Proof> = Vec::new();
        let per_segment = results.per_segment;
        for proof_input in it: per_segment
            invariant
                it.seq() == results.per_segment@,
                proofs@.len() == it.index(),
                forall|i: int|
                    0 <= i < proofs@.len() ==> call_ensures(
                        E::prove,
                        (&self.engine, pk, results.per_segment@[i]),
                        #[trigger] proofs@[i],
                    ),
        {
            proofs.push(self.engine.prove(pk, proof_input));
        }
        proofs
    }
}

impl<F: PrimeField32, E: ProofVerifier, VC: VmConfig<F>> VirtualMachine<E, F, VC> {
    /// Verifies the proofs of a run. With continuations also the conditions at the boundaries of
    /// the segments are checked; without, there is one proof.
    pub fn verify<U>(
        &self,
        vk: &E::VerifyingKey,
        proofs: Vec<SegmentProof<F, E::Proof>>,
        compute_exe_commit: impl Fn([F; CHUNK], [F; CHUNK], F) -> [F; CHUNK],
    ) -> (r: Result<(), VmVerificationError<E::Error, U>>)
        requires
            self.executor.config.spec_system().continuation_enabled ==> accepts_shaped(
                self.engine,
                *vk,
                proofs@,
            ),
            forall|x: [F; CHUNK], y: [F; CHUNK], z: F| #[trigger]
                call_requires(compute_exe_commit, (x, y, z)),
            !self.executor.config.spec_system().continuation_enabled ==> proofs@.len() == 1,
        ensures
            if self.executor.config.spec_system().continuation_enabled {
                exists|b: Result<Boundary, VmVerificationError<E::Error, U>>|
                    {
                        &&& #[trigger] verdict_on(self.engine, *vk, proofs@, b)
                        &&& match (b, r) {
                            (Ok(_), Ok(_)) => true,
                            (Err(e), Err(f)) => e == f,
                            _ => false,
                        }
                    }
            } else {
                exists|verdict: Result<(), E::Error>|
                    {
                        &&& #[trigger] says(self.engine, *vk, proofs@[0].proof, verdict)
                        &&& match (verdict, r) {
                            (Ok(_), Ok(_)) => true,
                            (Err(e), Err(f)) => f == VmVerificationError::<E::Error, U>::StarkError(
                                e,
                            ),
                            _ => false,
                        }
                    }
            },
    {
        if self.executor.config.system().continuation_enabled {
            match verify_segments(&self.engine, vk, proofs.as_slice(), compute_exe_commit) {
                Ok(_) => Ok(()),
                Err(e) => Err(e),
            }
        } else {
            let verdict = verify_single(&self.engine, vk, &proofs[0].proof);
            assert(says(self.engine, *vk, proofs@[0].proof, verdict));
            match verdict {
                Ok(_) => Ok(()),
                Err(e) => Err(VmVerificationError::StarkError(e)),
            }
        }
    }
}

/// Verifies the proof of a machine without continuations. Public values are not looked at, and
/// the program and its start are not read.
pub fn verify_single<E: ProofVerifier>(
    engine: &E,
    vk: &E::VerifyingKey,
    proof: &E::Proof,
) -> (r: Result<(), E::Error>)
    ensures
        says(*engine, *vk, *proof, r),
{
    engine.verify(vk, proof)
}

/// The proofs of all segments of a run: `P` is the proof of a segment, `U` that of the user public
/// values.
#[derive(Clone, Debug)]
pub struct ContinuationVmProof<P, U> {
    pub per_segment: Vec<P>,
    pub user_public_values: U,
}

} // verus!
