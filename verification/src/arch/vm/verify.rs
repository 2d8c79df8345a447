//! Verification of segment proofs.
use crate::air::array_vals;
use crate::arch::vm::exit::{DEFAULT_SUSPEND_EXIT_CODE, SUCCESS_EXIT_CODE};
use crate::field::PrimeField32;
use vstd::prelude::*;

verus! {

/// Elements in a commitment and in a Merkle root.
pub const CHUNK: usize = 8;

pub const PROGRAM_AIR_ID: usize = 0;

pub const CONNECTOR_AIR_ID: usize = 1;

/// The AIR of the public values, where there is one.
pub const PUBLIC_VALUES_AIR_ID: usize = 2;

pub const MERKLE_AIR_ID: usize = 3;

/// Where the commitment to the program stands among those to the traces.
pub const PROGRAM_CACHED_TRACE_INDEX: usize = 0;

/// Why proofs are rejected; `S` is the error of the proof system, `U` that of the user public
/// values.
#[derive(Debug)]
pub enum VmVerificationError<S, U> {
    ProofNotFound,
    ProgramCommitMismatch { index: usize },
    InitialPcMismatch { initial: u32, prev_final: u32 },
    InitialMemoryRootMismatch,
    IsTerminateMismatch { expected: bool, actual: bool },
    ExitCodeMismatch { expected: u32, actual: u32 },
    UnexpectedPvs { expected: usize, actual: usize },
    SystemAirMissing { air_id: usize },
    StarkError(S),
    UserPublicValuesError(U),
}

/// The public values of one AIR in a proof.
pub struct AirProofData<F> {
    pub air_id: usize,
    pub public_values: Vec<F>,
}

/// What is read of the proof of a segment.
pub struct Statement<F> {
    /// The commitments to the main traces.
    pub main_trace: Vec<[F; CHUNK]>,
    pub per_air: Vec<AirProofData<F>>,
}

/// The proof of a segment: `P` is the proof in the proof system.
pub struct SegmentProof<F, P> {
    pub proof: P,
    pub statement: Statement<F>,
}

/// The proof of a segment after the proof system has judged it.
pub struct JudgedProof<F, S> {
    /// What the proof system says of the proof.
    pub stark: Result<(), S>,
    pub statement: Statement<F>,
}

/// A proof system that verifies proofs.
pub trait ProofVerifier {
    type VerifyingKey;

    type Proof;

    type Error;

    fn verify(&self, vk: &Self::VerifyingKey, proof: &Self::Proof) -> Result<(), Self::Error>;
}

/// A verdict of the proof system on a proof.
pub open spec fn says<E: ProofVerifier>(
    engine: E,
    vk: E::VerifyingKey,
    proof: E::Proof,
    verdict: Result<(), E::Error>,
) -> bool {
    call_ensures(E::verify, (&engine, &vk, &proof), verdict)
}

/// The proofs that the proof system accepts state what they must.
pub open spec fn accepts_shaped<F: PrimeField32, E: ProofVerifier>(
    engine: E,
    vk: E::VerifyingKey,
    proofs: Seq<SegmentProof<F, E::Proof>>,
) -> bool {
    forall|i: int, verdict: Result<(), E::Error>|
        0 <= i < proofs.len() && #[trigger] says(engine, vk, proofs[i].proof, verdict)
            && verdict is Ok ==> proofs[i].statement.shaped()
}

/// The proof system has judged the first `k` proofs.
pub open spec fn judges<F, E: ProofVerifier>(
    engine: E,
    vk: E::VerifyingKey,
    proofs: Seq<SegmentProof<F, E::Proof>>,
    judged: Seq<JudgedProof<F, E::Error>>,
    k: int,
) -> bool {
    &&& judged.len() == proofs.len()
    &&& forall|i: int|
        0 <= i < judged.len() ==> (#[trigger] judged[i]).statement == proofs[i].statement
    &&& forall|i: int|
        0 <= i < k ==> says(engine, vk, proofs[i].proof, (#[trigger] judged[i]).stark)
}

/// What the proofs of all segments come to: the proof system judges them one after the other, as
/// far as the checks go.
pub open spec fn verdict_on<F: PrimeField32, E: ProofVerifier, U>(
    engine: E,
    vk: E::VerifyingKey,
    proofs: Seq<SegmentProof<F, E::Proof>>,
    r: Result<Boundary, VmVerificationError<E::Error, U>>,
) -> bool {
    if proofs.len() == 0 {
        r == Err::<Boundary, VmVerificationError<E::Error, U>>(VmVerificationError::ProofNotFound)
    } else {
        exists|judged: Seq<JudgedProof<F, E::Error>>, k: int|
            {
                &&& #[trigger] judges(engine, vk, proofs, judged, k)
                &&& 0 < k <= proofs.len()
                &&& r is Ok ==> k == proofs.len()
                &&& r == check_segments::<F, E::Error, U>(judged, k)
            }
    }
}

/// The payload of a verified execution.
pub struct VerifiedExecutionPayload<F> {
    /// The hash of the commitment to the program, the root of the initial memory and the first
    /// program counter.
    pub exe_commit: [F; CHUNK],
    /// The root of the final memory.
    pub final_memory_root: [F; CHUNK],
}

/// The canonical values of the public values of one AIR.
pub ghost struct AirVals {
    pub air_id: usize,
    pub pvs: Seq<int>,
}

/// What is carried from one segment to the next.
pub ghost struct Boundary {
    pub program_commit: Option<Seq<int>>,
    pub start_pc: Option<int>,
    pub initial_root: Option<Seq<int>>,
    pub final_pc: Option<int>,
    pub final_root: Option<Seq<int>>,
}

impl Boundary {
    pub open spec fn empty() -> Boundary {
        Boundary {
            program_commit: None,
            start_pc: None,
            initial_root: None,
            final_pc: None,
            final_root: None,
        }
    }
}

/// The connector's public values, by name.
pub open spec fn initial_pc(pvs: Seq<int>) -> int {
    pvs[0]
}

pub open spec fn final_pc(pvs: Seq<int>) -> int {
    pvs[1]
}

pub open spec fn exit_code(pvs: Seq<int>) -> int {
    pvs[2]
}

pub open spec fn is_terminate(pvs: Seq<int>) -> int {
    pvs[3]
}

/// The root of the memory before the segment.
pub open spec fn initial_root(pvs: Seq<int>) -> Seq<int> {
    pvs.subrange(0, 8)
}

/// The root of the memory after the segment.
pub open spec fn final_root(pvs: Seq<int>) -> Seq<int> {
    pvs.subrange(8, 16)
}

/// The exit code that a segment must have.
pub open spec fn expected_exit_code(last: bool) -> u32 {
    if last {
        SUCCESS_EXIT_CODE
    } else {
        DEFAULT_SUSPEND_EXIT_CODE
    }
}

/// The check of one AIR of segment `i`.
pub open spec fn check_air<S, U>(
    i: int,
    last: bool,
    commit: Seq<int>,
    air: AirVals,
    b: Boundary,
) -> Result<Boundary, VmVerificationError<S, U>> {
    let pvs = air.pvs;
    if air.air_id == PROGRAM_AIR_ID {
        if i == 0 {
            Ok(Boundary { program_commit: Some(commit), ..b })
        } else if b.program_commit != Some(commit) {
            Err(VmVerificationError::ProgramCommitMismatch { index: i as usize })
        } else {
            Ok(b)
        }
    } else if air.air_id == CONNECTOR_AIR_ID {
        if i != 0 && b.final_pc != Some(initial_pc(pvs)) {
            Err(
                VmVerificationError::InitialPcMismatch {
                    initial: initial_pc(pvs) as u32,
                    prev_final: b.final_pc->0 as u32,
                },
            )
        } else if is_terminate(pvs) != (if last {
            1int
        } else {
            0
        }) {
            Err(
                VmVerificationError::IsTerminateMismatch {
                    expected: last,
                    actual: is_terminate(pvs) != 0,
                },
            )
        } else if exit_code(pvs) != expected_exit_code(last) {
            Err(
                VmVerificationError::ExitCodeMismatch {
                    expected: expected_exit_code(last),
                    actual: exit_code(pvs) as u32,
                },
            )
        } else {
            Ok(
                Boundary {
                    start_pc: if i == 0 {
                        Some(initial_pc(pvs))
                    } else {
                        b.start_pc
                    },
                    final_pc: Some(final_pc(pvs)),
                    ..b
                },
            )
        }
    } else if air.air_id == MERKLE_AIR_ID {
        if i != 0 && b.final_root != Some(initial_root(pvs)) {
            Err(VmVerificationError::InitialMemoryRootMismatch)
        } else {
            Ok(
                Boundary {
                    initial_root: if i == 0 {
                        Some(initial_root(pvs))
                    } else {
                        b.initial_root
                    },
                    final_root: Some(final_root(pvs)),
                    ..b
                },
            )
        }
    } else if pvs.len() > 0 {
        Err(VmVerificationError::UnexpectedPvs { expected: 0, actual: pvs.len() as usize })
    } else {
        Ok(b)
    }
}

/// The check of the first `k` AIRs of segment `i`.
pub open spec fn check_airs<S, U>(
    i: int,
    last: bool,
    commit: Seq<int>,
    airs: Seq<AirVals>,
    k: int,
    b: Boundary,
) -> Result<Boundary, VmVerificationError<S, U>>
    decreases k,
{
    if k <= 0 {
        Ok(b)
    } else {
        match check_airs::<S, U>(i, last, commit, airs, k - 1, b) {
            Ok(c) => check_air(i, last, commit, airs[k - 1], c),
            Err(e) => Err(e),
        }
    }
}

/// One of the AIRs has the given index.
pub open spec fn has_air(airs: Seq<AirVals>, air_id: usize) -> bool {
    exists|k: int| 0 <= k < airs.len() && (#[trigger] airs[k]).air_id == air_id
}

impl<F: PrimeField32> AirProofData<F> {
    pub open spec fn vals(&self) -> AirVals {
        AirVals { air_id: self.air_id, pvs: self.public_values@.map_values(|x: F| x.val()) }
    }
}

impl<F: PrimeField32> Statement<F> {
    pub open spec fn airs(&self) -> Seq<AirVals> {
        self.per_air@.map_values(|a: AirProofData<F>| a.vals())
    }

    /// The commitment to the program; zeros where the proof has none.
    pub open spec fn commit(&self) -> Seq<int> {
        if self.main_trace@.len() > PROGRAM_CACHED_TRACE_INDEX {
            array_vals(self.main_trace@[PROGRAM_CACHED_TRACE_INDEX as int])
        } else {
            Seq::new(CHUNK as nat, |i: int| 0int)
        }
    }

    /// The system AIRs have the public values that they state, and the program has a commitment.
    pub open spec fn shaped(&self) -> bool {
        forall|k: int|
            0 <= k < self.airs().len() ==> {
                &&& self.airs()[k].air_id == PROGRAM_AIR_ID ==> self.main_trace@.len()
                    > PROGRAM_CACHED_TRACE_INDEX
                &&& (#[trigger] self.airs()[k]).air_id == CONNECTOR_AIR_ID
                    ==> self.airs()[k].pvs.len() == 4
                &&& self.airs()[k].air_id == MERKLE_AIR_ID ==> self.airs()[k].pvs.len() == 16
            }
    }
}

impl<F: PrimeField32, S> JudgedProof<F, S> {
    pub open spec fn airs(&self) -> Seq<AirVals> {
        self.statement.airs()
    }

    pub open spec fn commit(&self) -> Seq<int> {
        self.statement.commit()
    }

    /// A proof that the proof system accepts states what it must.
    pub open spec fn wf(&self) -> bool {
        self.stark is Ok ==> self.statement.shaped()
    }
}

/// The check of what segment `i` states.
pub open spec fn check_statement<F: PrimeField32, S, U>(
    i: int,
    last: bool,
    statement: Statement<F>,
    b: Boundary,
) -> Result<Boundary, VmVerificationError<S, U>> {
    let airs = statement.airs();
    match check_airs::<S, U>(i, last, statement.commit(), airs, airs.len() as int, b) {
        Err(e) => Err(e),
        Ok(c) => if !has_air(airs, PROGRAM_AIR_ID) {
            Err(VmVerificationError::SystemAirMissing { air_id: PROGRAM_AIR_ID })
        } else if !has_air(airs, CONNECTOR_AIR_ID) {
            Err(VmVerificationError::SystemAirMissing { air_id: CONNECTOR_AIR_ID })
        } else if !has_air(airs, MERKLE_AIR_ID) {
            Err(VmVerificationError::SystemAirMissing { air_id: MERKLE_AIR_ID })
        } else {
            Ok(c)
        },
    }
}

/// The check of segment `i`.
pub open spec fn check_segment<F: PrimeField32, S, U>(
    i: int,
    last: bool,
    proof: JudgedProof<F, S>,
    b: Boundary,
) -> Result<Boundary, VmVerificationError<S, U>> {
    match proof.stark {
        Err(e) => Err(VmVerificationError::StarkError(e)),
        Ok(_) => check_statement(i, last, proof.statement, b),
    }
}

/// The check of the first `k` segments.
pub open spec fn check_segments<F: PrimeField32, S, U>(
    proofs: Seq<JudgedProof<F, S>>,
    k: int,
) -> Result<Boundary, VmVerificationError<S, U>>
    decreases k,
{
    if k <= 0 {
        Ok(Boundary::empty())
    } else {
        match check_segments::<F, S, U>(proofs, k - 1) {
            Ok(b) => check_segment(k - 1, k == proofs.len(), proofs[k - 1], b),
            Err(e) => Err(e),
        }
    }
}

/// What is carried from one segment to the next.
struct Carried<F> {
    program_commit: Option<[F; CHUNK]>,
    start_pc: Option<F>,
    initial_root: Option<[F; CHUNK]>,
    final_pc: Option<F>,
    final_root: Option<[F; CHUNK]>,
}

spec fn chunk_val<F: PrimeField32>(x: Option<[F; CHUNK]>) -> Option<Seq<int>> {
    match x {
        Some(a) => Some(array_vals(a)),
        None => None,
    }
}

spec fn elem_val<F: PrimeField32>(x: Option<F>) -> Option<int> {
    match x {
        Some(a) => Some(a.val()),
        None => None,
    }
}

impl<F: PrimeField32> Carried<F> {
    spec fn boundary(&self) -> Boundary {
        Boundary {
            program_commit: chunk_val(self.program_commit),
            start_pc: elem_val(self.start_pc),
            initial_root: chunk_val(self.initial_root),
            final_pc: elem_val(self.final_pc),
            final_root: chunk_val(self.final_root),
        }
    }
}

/// Whether two chunks are equal.
fn chunks_equal<F: PrimeField32>(x: &[F; CHUNK], y: &[F; CHUNK]) -> (r: bool)
    ensures
        r == (array_vals(*x) == array_vals(*y)),
{
    for i in 0..CHUNK
        invariant
            forall|j: int| 0 <= j < i ==> (#[trigger] x[j]).val() == y[j].val(),
    {
        if !x[i].equals(y[i]) {
            assert(array_vals(*x)[i as int] != array_vals(*y)[i as int]);
            return false;
        }
    }
    assert(array_vals(*x) =~= array_vals(*y));
    true
}

/// Eight public values from `start` on.
fn chunk_at<F: PrimeField32>(pvs: &Vec<F>, start: usize) -> (r: [F; CHUNK])
    requires
        start + 8 <= pvs@.len(),
    ensures
        array_vals(r) == pvs@.map_values(|x: F| x.val()).subrange(start as int, start + 8),
{
    let mut r = [F::zero();CHUNK];
    for i in 0..CHUNK
        invariant
            start + 8 <= pvs@.len(),
            forall|j: int| 0 <= j < i ==> #[trigger] r[j] == pvs@[start + j],
    {
        assert(pvs.len() == pvs@.len());
        r[i] = pvs[start + i];
    }
    assert(array_vals(r) =~= pvs@.map_values(|x: F| x.val()).subrange(start as int, start + 8));
    r
}

/// Checks one AIR of segment `i`.
fn check_air_exec<F: PrimeField32, S, U>(
    i: usize,
    last: bool,
    commit: &[F; CHUNK],
    air: &AirProofData<F>,
    carried: Carried<F>,
) -> (r: Result<Carried<F>, VmVerificationError<S, U>>)
    requires
        air.air_id == CONNECTOR_AIR_ID ==> air.public_values@.len() == 4,
        air.air_id == MERKLE_AIR_ID ==> air.public_values@.len() == 16,
        i != 0 ==> carried.program_commit is Some && carried.final_pc is Some
            && carried.final_root is Some,
    ensures
        match r {
            Ok(c) => check_air::<S, U>(
                i as int,
                last,
                array_vals(*commit),
                air.vals(),
                carried.boundary(),
            ) == Ok::<Boundary, VmVerificationError<S, U>>(c.boundary()),
            Err(e) => check_air::<S, U>(
                i as int,
                last,
                array_vals(*commit),
                air.vals(),
                carried.boundary(),
            ) == Err::<Boundary, VmVerificationError<S, U>>(e),
        },
{
    let mut carried = carried;
    let pvs = &air.public_values;
    if air.air_id == PROGRAM_AIR_ID {
        if i == 0 {
            carried.program_commit = Some(*commit);
        } else {
            match &carried.program_commit {
                Some(c) => {
                    if !chunks_equal(c, commit) {
                        return Err(VmVerificationError::ProgramCommitMismatch { index: i });
                    }
                },
                None => {},
            }
        }
    } else if air.air_id == CONNECTOR_AIR_ID {
        let initial_pc = pvs[0];
        let final_pc = pvs[1];
        let exit_code = pvs[2];
        let is_terminate = pvs[3];
        assert(air.vals().pvs[0] == initial_pc.val());
        assert(air.vals().pvs[1] == final_pc.val());
        assert(air.vals().pvs[2] == exit_code.val());
        assert(air.vals().pvs[3] == is_terminate.val());
        if i != 0 {
            match carried.final_pc {
                Some(prev) => {
                    if !initial_pc.equals(prev) {
                        return Err(
                            VmVerificationError::InitialPcMismatch {
                                initial: initial_pc.as_canonical_u32(),
                                prev_final: prev.as_canonical_u32(),
                            },
                        );
                    }
                },
                None => {},
            }
        } else {
            carried.start_pc = Some(initial_pc);
        }
        carried.final_pc = Some(final_pc);
        if !is_terminate.equals(F::from_bool(last)) {
            return Err(
                VmVerificationError::IsTerminateMismatch {
                    expected: last,
                    actual: is_terminate.as_canonical_u32() != 0,
                },
            );
        }
        let expected = if last {
            SUCCESS_EXIT_CODE
        } else {
            DEFAULT_SUSPEND_EXIT_CODE
        };
        if exit_code.as_canonical_u32() != expected {
            return Err(
                VmVerificationError::ExitCodeMismatch {
                    expected,
                    actual: exit_code.as_canonical_u32(),
                },
            );
        }
    } else if air.air_id == MERKLE_AIR_ID {
        let initial = chunk_at(pvs, 0);
        let last_root = chunk_at(pvs, 8);
        if i != 0 {
            match &carried.final_root {
                Some(prev) => {
                    if !chunks_equal(&initial, prev) {
                        return Err(VmVerificationError::InitialMemoryRootMismatch);
                    }
                },
                None => {},
            }
        } else {
            carried.initial_root = Some(initial);
        }
        carried.final_root = Some(last_root);
    } else if pvs.len() > 0 {
        return Err(VmVerificationError::UnexpectedPvs { expected: 0, actual: pvs.len() });
    }
    Ok(carried)
}

/// Once segment `i` has an AIR, what the AIR carries is set; what was set stays set.
proof fn lemma_airs_set<S, U>(
    i: int,
    last: bool,
    commit: Seq<int>,
    airs: Seq<AirVals>,
    k: int,
    b: Boundary,
)
    requires
        0 <= k <= airs.len(),
        i != 0 ==> b.program_commit is Some && b.start_pc is Some && b.initial_root is Some
            && b.final_pc is Some && b.final_root is Some,
    ensures
        check_airs::<S, U>(i, last, commit, airs, k, b) matches Ok(c) ==> {
            &&& has_air(airs.take(k), PROGRAM_AIR_ID) || i != 0 ==> c.program_commit is Some
            &&& has_air(airs.take(k), CONNECTOR_AIR_ID) || i != 0 ==> c.start_pc is Some
                && c.final_pc is Some
            &&& has_air(airs.take(k), MERKLE_AIR_ID) || i != 0 ==> c.initial_root is Some
                && c.final_root is Some
        },
    decreases k,
{
    if k > 0 {
        lemma_airs_set::<S, U>(i, last, commit, airs, k - 1, b);
        lemma_has_air_push(airs, k, PROGRAM_AIR_ID);
        lemma_has_air_push(airs, k, CONNECTOR_AIR_ID);
        lemma_has_air_push(airs, k, MERKLE_AIR_ID);
    }
}

proof fn lemma_has_air_push(airs: Seq<AirVals>, k: int, air_id: usize)
    requires
        0 < k <= airs.len(),
    ensures
        has_air(airs.take(k), air_id) == (has_air(airs.take(k - 1), air_id) || airs[k - 1].air_id
            == air_id),
{
    let (s, t) = (airs.take(k), airs.take(k - 1));
    if has_air(s, air_id) {
        let j = choose|j: int| 0 <= j < s.len() && (#[trigger] s[j]).air_id == air_id;
        if j < k - 1 {
            assert(t[j].air_id == air_id);
        }
    }
    if has_air(t, air_id) {
        let j = choose|j: int| 0 <= j < t.len() && (#[trigger] t[j]).air_id == air_id;
        assert(s[j].air_id == air_id);
    }
    assert(s[k - 1] == airs[k - 1]);
}

/// Checks what segment `i` states.
fn check_statement_exec<F: PrimeField32, S, U>(
    i: usize,
    last: bool,
    statement: &Statement<F>,
    start: Carried<F>,
) -> (r: Result<Carried<F>, VmVerificationError<S, U>>)
    requires
        statement.shaped(),
        i != 0 ==> start.is_set(),
    ensures
        match r {
            Ok(c) => {
                &&& check_statement::<F, S, U>(i as int, last, *statement, start.boundary()) == Ok::<
                    Boundary,
                    VmVerificationError<S, U>,
                >(c.boundary())
                &&& c.is_set()
            },
            Err(e) => check_statement::<F, S, U>(i as int, last, *statement, start.boundary()) == Err::<
                Boundary,
                VmVerificationError<S, U>,
            >(e),
        },
{
    let ghost b0 = start.boundary();
    let ghost airs = statement.airs();
    let commit = if statement.main_trace.len() > PROGRAM_CACHED_TRACE_INDEX {
        statement.main_trace[PROGRAM_CACHED_TRACE_INDEX]
    } else {
        let zero = F::zero();
        [zero, zero, zero, zero, zero, zero, zero, zero]
    };
    assert(array_vals(commit) =~= statement.commit());
    let mut carried = start;
    let mut program_air_present = false;
    let mut connector_air_present = false;
    let mut merkle_air_present = false;
    for k in 0..statement.per_air.len()
        invariant
            statement.shaped(),
            b0 == start.boundary(),
            airs == statement.airs(),
            array_vals(commit) == statement.commit(),
            i != 0 ==> carried.is_set(),
            i != 0 ==> b0.program_commit is Some && b0.start_pc is Some && b0.initial_root is Some
                && b0.final_pc is Some && b0.final_root is Some,
            check_airs::<S, U>(i as int, last, statement.commit(), airs, k as int, b0) == Ok::<
                Boundary,
                VmVerificationError<S, U>,
            >(carried.boundary()),
            program_air_present == has_air(airs.take(k as int), PROGRAM_AIR_ID),
            connector_air_present == has_air(airs.take(k as int), CONNECTOR_AIR_ID),
            merkle_air_present == has_air(airs.take(k as int), MERKLE_AIR_ID),
    {
        let air = &statement.per_air[k];
        proof {
            assert(airs[k as int] == air.vals());
            lemma_has_air_push(airs, k + 1, PROGRAM_AIR_ID);
            lemma_has_air_push(airs, k + 1, CONNECTOR_AIR_ID);
            lemma_has_air_push(airs, k + 1, MERKLE_AIR_ID);
            lemma_airs_set::<S, U>(i as int, last, statement.commit(), airs, k + 1, b0);
        }
        if air.air_id == PROGRAM_AIR_ID {
            program_air_present = true;
        } else if air.air_id == CONNECTOR_AIR_ID {
            connector_air_present = true;
        } else if air.air_id == MERKLE_AIR_ID {
            merkle_air_present = true;
        }
        match check_air_exec::<F, S, U>(i, last, &commit, air, carried) {
            Ok(c) => {
                carried = c;
            },
            Err(e) => {
                proof {
                    assert(check_airs::<S, U>(
                        i as int,
                        last,
                        statement.commit(),
                        airs,
                        k + 1,
                        b0,
                    ) == Err::<Boundary, VmVerificationError<S, U>>(e));
                    lemma_airs_err::<S, U>(
                        i as int,
                        last,
                        statement.commit(),
                        airs,
                        k + 1,
                        airs.len() as int,
                        b0,
                    );
                }
                return Err(e);
            },
        }
    }
    proof {
        lemma_airs_set::<S, U>(i as int, last, statement.commit(), airs, airs.len() as int, b0);
        assert(airs.take(airs.len() as int) =~= airs);
    }
    if !program_air_present {
        return Err(VmVerificationError::SystemAirMissing { air_id: PROGRAM_AIR_ID });
    }
    if !connector_air_present {
        return Err(VmVerificationError::SystemAirMissing { air_id: CONNECTOR_AIR_ID });
    }
    if !merkle_air_present {
        return Err(VmVerificationError::SystemAirMissing { air_id: MERKLE_AIR_ID });
    }
    Ok(carried)
}

/// An error at one AIR is the error of the segment.
proof fn lemma_airs_err<S, U>(
    i: int,
    last: bool,
    commit: Seq<int>,
    airs: Seq<AirVals>,
    k: int,
    n: int,
    b: Boundary,
)
    requires
        0 <= k <= n,
        check_airs::<S, U>(i, last, commit, airs, k, b) is Err,
    ensures
        check_airs::<S, U>(i, last, commit, airs, n, b) == check_airs::<S, U>(
            i,
            last,
            commit,
            airs,
            k,
            b,
        ),
    decreases n - k,
{
    if k < n {
        lemma_airs_err::<S, U>(i, last, commit, airs, k, n - 1, b);
    }
}

/// An error at one segment is the error of all.
proof fn lemma_segments_err<F: PrimeField32, S, U>(proofs: Seq<JudgedProof<F, S>>, k: int, n: int)
    requires
        0 <= k <= n,
        check_segments::<F, S, U>(proofs, k) is Err,
    ensures
        check_segments::<F, S, U>(proofs, n) == check_segments::<F, S, U>(proofs, k),
    decreases n - k,
{
    if k < n {
        lemma_segments_err::<F, S, U>(proofs, k, n - 1);
    }
}

/// The check of the first `k` segments reads no other.
pub proof fn lemma_segments_prefix<F: PrimeField32, S, U>(
    proofs: Seq<JudgedProof<F, S>>,
    others: Seq<JudgedProof<F, S>>,
    k: int,
)
    requires
        proofs.len() == others.len(),
        k <= proofs.len(),
        forall|i: int| 0 <= i < k ==> #[trigger] proofs[i] == others[i],
    ensures
        check_segments::<F, S, U>(proofs, k) == check_segments::<F, S, U>(others, k),
    decreases k,
{
    if k > 0 {
        lemma_segments_prefix::<F, S, U>(proofs, others, k - 1);
        assert(proofs[k - 1] == others[k - 1]);
    }
}

impl<F: PrimeField32> Carried<F> {
    fn none() -> (r: Self)
        ensures
            r.boundary() == Boundary::empty(),
    {
        Carried {
            program_commit: None,
            start_pc: None,
            initial_root: None,
            final_pc: None,
            final_root: None,
        }
    }

    /// What the checks carried to the end.
    fn into_verified(self) -> (r: VerifiedBoundary<F>)
        requires
            self.is_set(),
        ensures
            r.is_of(self.boundary()),
    {
        VerifiedBoundary {
            program_commit: self.program_commit.unwrap(),
            initial_memory_root: self.initial_root.unwrap(),
            start_pc: self.start_pc.unwrap(),
            final_memory_root: self.final_root.unwrap(),
        }
    }

    spec fn is_set(&self) -> bool {
        &&& self.program_commit is Some
        &&& self.start_pc is Some
        &&& self.initial_root is Some
        &&& self.final_pc is Some
        &&& self.final_root is Some
    }
}

/// What accepted proofs say of the whole execution.
pub struct VerifiedBoundary<F> {
    pub program_commit: [F; CHUNK],
    pub initial_memory_root: [F; CHUNK],
    pub start_pc: F,
    pub final_memory_root: [F; CHUNK],
}

impl<F: PrimeField32> VerifiedBoundary<F> {
    /// The values are those that the checks carried to the end.
    pub open spec fn is_of(&self, b: Boundary) -> bool {
        &&& b.program_commit == Some(array_vals(self.program_commit))
        &&& b.initial_root == Some(array_vals(self.initial_memory_root))
        &&& b.start_pc == Some(self.start_pc.val())
        &&& b.final_root == Some(array_vals(self.final_memory_root))
    }
}

/// Checks proofs that the proof system has judged, and the conditions at the boundaries of the
/// segments.
///
/// Every proof is accepted by the proof system, and all are of one program. Every segment but the
/// first starts at the program counter and from the memory where the one before ended. Only the
/// last segment terminates, and it does so with success; the others suspend.
pub fn verify_boundaries<F: PrimeField32, S, U>(proofs: Vec<JudgedProof<F, S>>) -> (r: Result<
    VerifiedBoundary<F>,
    VmVerificationError<S, U>,
>)
    requires
        forall|i: int| 0 <= i < proofs@.len() ==> (#[trigger] proofs@[i]).wf(),
    ensures
        match r {
            Ok(v) => {
                &&& proofs@.len() > 0
                &&& check_segments::<F, S, U>(proofs@, proofs@.len() as int) matches Ok(b)
                &&& v.is_of(b)
            },
            Err(e) => if proofs@.len() == 0 {
                e == VmVerificationError::<S, U>::ProofNotFound
            } else {
                check_segments::<F, S, U>(proofs@, proofs@.len() as int) == Err::<
                    Boundary,
                    VmVerificationError<S, U>,
                >(e)
            },
        },
{
    if proofs.len() == 0 {
        return Err(VmVerificationError::ProofNotFound);
    }
    let ghost all = proofs@;
    let n = proofs.len();
    let mut i: usize = 0;
    let mut carried: Carried<F> = Carried::none();
    for proof in it: proofs
        invariant
            it.seq() == all,
            i == it.index(),
            n == all.len(),
            forall|i: int| 0 <= i < all.len() ==> (#[trigger] all[i]).wf(),
            i != 0 ==> carried.is_set(),
            check_segments::<F, S, U>(all, i as int) == Ok::<Boundary, VmVerificationError<S, U>>(
                carried.boundary(),
            ),
    {
        proof {
            assert(proof == all[i as int]);
            if check_segments::<F, S, U>(all, i + 1) is Err {
                lemma_segments_err::<F, S, U>(all, i + 1, n as int);
            }
        }
        match proof.stark {
            Ok(_) => {},
            Err(e) => {
                return Err(VmVerificationError::StarkError(e));
            },
        }
        match check_statement_exec::<F, S, U>(i, i == n - 1, &proof.statement, carried) {
            Ok(c) => {
                carried = c;
            },
            Err(e) => {
                return Err(e);
            },
        }
        i = i + 1;
    }
    Ok(carried.into_verified())
}

/// Verifies the proofs of all segments and the conditions at their boundaries, which
/// [`verify_boundaries`] names.
///
/// The proof system judges the proofs one after the other; the first one that it refuses, or whose
/// statement is refused, decides. Returns the hash of the commitment to the program, the root of
/// the initial memory and the first program counter, which `compute_exe_commit` computes, and the
/// root of the final memory. It is for the caller to compare the hash with that of the program that
/// was to run. User public values are not looked at.
pub fn verify_segments<F: PrimeField32, E: ProofVerifier, U>(
    engine: &E,
    vk: &E::VerifyingKey,
    proofs: &[SegmentProof<F, E::Proof>],
    compute_exe_commit: impl Fn([F; CHUNK], [F; CHUNK], F) -> [F; CHUNK],
) -> (r: Result<VerifiedExecutionPayload<F>, VmVerificationError<E::Error, U>>)
    requires
        accepts_shaped(*engine, *vk, proofs@),
        forall|x: [F; CHUNK], y: [F; CHUNK], z: F| #[trigger]
            call_requires(compute_exe_commit, (x, y, z)),
    ensures
        exists|b: Result<Boundary, VmVerificationError<E::Error, U>>|
            {
                &&& #[trigger] verdict_on(*engine, *vk, proofs@, b)
                &&& match (b, r) {
                    (Ok(b), Ok(payload)) => exists|v: VerifiedBoundary<F>|
                        {
                            &&& #[trigger] v.is_of(b)
                            &&& v.final_memory_root == payload.final_memory_root
                            &&& call_ensures(
                                compute_exe_commit,
                                (v.program_commit, v.initial_memory_root, v.start_pc),
                                payload.exe_commit,
                            )
                        },
                    (Err(e), Err(f)) => e == f,
                    _ => false,
                }
            },
{
    if proofs.len() == 0 {
        let ghost b: Result<Boundary, VmVerificationError<E::Error, U>> = Err(
            VmVerificationError::ProofNotFound,
        );
        assert(verdict_on(*engine, *vk, proofs@, b));
        return Err(VmVerificationError::ProofNotFound);
    }
    let ghost n = proofs@.len() as int;
    let ghost mut judged: Seq<JudgedProof<F, E::Error>> = Seq::new(
        proofs@.len(),
        |i: int| JudgedProof { stark: Ok(()), statement: proofs@[i].statement },
    );
    let mut carried: Carried<F> = Carried::none();
    for i in 0..proofs.len()
        invariant
            n == proofs@.len(),
            accepts_shaped(*engine, *vk, proofs@),
            judges(*engine, *vk, proofs@, judged, i as int),
            i != 0 ==> carried.is_set(),
            check_segments::<F, E::Error, U>(judged, i as int) == Ok::<
                Boundary,
                VmVerificationError<E::Error, U>,
            >(carried.boundary()),
    {
        let verdict = engine.verify(vk, &proofs[i].proof);
        let ghost before = judged;
        proof {
            assert(says(*engine, *vk, proofs@[i as int].proof, verdict));
            judged =
            judged.update(
                i as int,
                JudgedProof { stark: verdict, statement: proofs@[i as int].statement },
            );
            lemma_segments_prefix::<F, E::Error, U>(judged, before, i as int);
            assert(judges(*engine, *vk, proofs@, judged, i + 1));
        }
        let ghost next = check_segments::<F, E::Error, U>(judged, i + 1);
        assert(next == check_segment::<F, E::Error, U>(
            i as int,
            i == n - 1,
            judged[i as int],
            carried.boundary(),
        ));
        match verdict {
            Ok(_) => {},
            Err(e) => {
                assert(verdict_on(*engine, *vk, proofs@, next));
                return Err(VmVerificationError::StarkError(e));
            },
        }
        match check_statement_exec::<F, E::Error, U>(
            i,
            i == proofs.len() - 1,
            &proofs[i].statement,
            carried,
        ) {
            Ok(c) => {
                carried = c;
            },
            Err(e) => {
                assert(verdict_on(*engine, *vk, proofs@, next));
                return Err(e);
            },
        }
    }
    let ghost b: Result<Boundary, VmVerificationError<E::Error, U>> = Ok(carried.boundary());
    assert(verdict_on(*engine, *vk, proofs@, b));
    let v = carried.into_verified();
    let exe_commit = compute_exe_commit(v.program_commit, v.initial_memory_root, v.start_pc);
    Ok(VerifiedExecutionPayload { exe_commit, final_memory_root: v.final_memory_root })
}

} // verus!
