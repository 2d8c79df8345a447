use openvm_circuit::arch::error::ExecutionError;
use openvm_circuit::arch::vm::exit::{check_exit_code, check_termination, ExitCode};
use openvm_circuit::arch::vm::verify::{
    verify_boundaries, verify_segments, AirProofData, JudgedProof, ProofVerifier, SegmentProof,
    Statement, VmVerificationError,
};
use openvm_circuit::field::baby_bear::BabyBear;
use openvm_circuit::field::PrimeField32;
use std::cell::Cell;

type Refusal = VmVerificationError<u8, u8>;

fn fe(n: u32) -> BabyBear {
    BabyBear::from_canonical_u32(n)
}

fn root(n: u32) -> [BabyBear; 8] {
    [fe(n), fe(n + 1), fe(n + 2), fe(n + 3), fe(0), fe(0), fe(0), fe(1)]
}

fn air(air_id: usize, public_values: Vec<BabyBear>) -> AirProofData<BabyBear> {
    AirProofData { air_id, public_values }
}

/// The program counters and roots at both ends, the exit code and whether the program ended.
fn segment(pcs: [u32; 2], roots: [u32; 2], exit: [u32; 2]) -> JudgedProof<BabyBear, u8> {
    let connector = vec![fe(pcs[0]), fe(pcs[1]), fe(exit[0]), fe(exit[1])];
    let mut merkle = root(roots[0]).to_vec();
    merkle.extend(root(roots[1]));
    JudgedProof {
        stark: Ok(()),
        statement: Statement {
            main_trace: vec![root(50)],
            per_air: vec![air(0, vec![]), air(1, connector), air(3, merkle), air(7, vec![])],
        },
    }
}

fn run() -> Vec<JudgedProof<BabyBear, u8>> {
    vec![
        segment([4, 40], [100, 200], [42, 0]),
        segment([40, 80], [200, 300], [42, 0]),
        segment([80, 84], [300, 400], [0, 1]),
    ]
}

fn refusal(proofs: Vec<JudgedProof<BabyBear, u8>>) -> String {
    let r: Result<_, Refusal> = verify_boundaries(proofs);
    format!("{:?}", r.err().unwrap())
}

#[test]
fn accepts_a_chain_of_segments() {
    let verified: Result<_, Refusal> = verify_boundaries(run());
    let v = verified.unwrap();
    assert!(v.program_commit == root(50));
    assert!(v.initial_memory_root == root(100));
    assert_eq!(v.start_pc.as_canonical_u32(), 4);
    assert!(v.final_memory_root == root(400));
}

/// Accepts the proofs that are even, and counts how many it was asked for.
struct Even {
    asked: Cell<usize>,
}

impl ProofVerifier for Even {
    type VerifyingKey = u32;
    type Proof = u32;
    type Error = u8;

    fn verify(&self, vk: &u32, proof: &u32) -> Result<(), u8> {
        self.asked.set(self.asked.get() + 1);
        if (vk + proof) % 2 == 0 {
            Ok(())
        } else {
            Err((vk + proof) as u8)
        }
    }
}

fn proofs(proofs: [u32; 3]) -> Vec<SegmentProof<BabyBear, u32>> {
    let with = |(j, proof): (JudgedProof<BabyBear, u8>, u32)| SegmentProof {
        proof,
        statement: j.statement,
    };
    run().into_iter().zip(proofs).map(with).collect()
}

#[test]
fn the_first_refusal_decides() {
    let hash = |x: [BabyBear; 8], _: [BabyBear; 8], _: BabyBear| x;
    let refused = |proofs: &[SegmentProof<BabyBear, u32>]| {
        let engine = Even { asked: Cell::new(0) };
        let r: Result<_, Refusal> = verify_segments(&engine, &10, proofs, hash);
        (engine.asked.get(), format!("{:?}", r.err().unwrap()))
    };
    assert_eq!(refused(&proofs([2, 5, 7])), (2, "StarkError(15)".to_string()));
    assert_eq!(refused(&proofs([2, 4, 7])), (3, "StarkError(17)".to_string()));
    let mut jump = proofs([2, 4, 7]);
    jump[1].statement.per_air[1].public_values[0] = fe(44);
    let mismatch = "InitialPcMismatch { initial: 44, prev_final: 40 }".to_string();
    assert_eq!(refused(&jump), (2, mismatch));
    assert_eq!(refused(&[]), (0, "ProofNotFound".to_string()));
}

#[test]
fn the_key_is_handed_to_the_proof_system() {
    let hash = |x: [BabyBear; 8], _: [BabyBear; 8], _: BabyBear| x;
    let engine = Even { asked: Cell::new(0) };
    let odd = proofs([1, 3, 5]);
    let r: Result<_, Refusal> = verify_segments(&engine, &11, &odd, hash);
    assert!(r.is_ok());
    let r: Result<_, Refusal> = verify_segments(&engine, &12, &odd, hash);
    assert!(matches!(r, Err(VmVerificationError::StarkError(13))));
}

#[test]
fn commits_to_program_memory_and_start() {
    let compute = |program: [BabyBear; 8], memory: [BabyBear; 8], pc: BabyBear| {
        let mut r = program;
        r[1] = memory[0];
        r[2] = pc;
        r
    };
    let engine = Even { asked: Cell::new(0) };
    let verified: Result<_, Refusal> =
        verify_segments(&engine, &0, &proofs([2, 4, 6]), compute);
    let payload = verified.unwrap();
    assert_eq!(payload.exe_commit[0].as_canonical_u32(), 50);
    assert_eq!(payload.exe_commit[1].as_canonical_u32(), 100);
    assert_eq!(payload.exe_commit[2].as_canonical_u32(), 4);
    assert!(payload.final_memory_root == root(400));
}

#[test]
fn refuses_no_proofs() {
    assert_eq!(refusal(vec![]), "ProofNotFound");
}

#[test]
fn refuses_a_bad_proof() {
    let mut proofs = run();
    proofs[1].stark = Err(9);
    assert_eq!(refusal(proofs), "StarkError(9)");
}

#[test]
fn refuses_another_program() {
    let mut proofs = run();
    proofs[2].statement.main_trace[0][7] = fe(2);
    assert_eq!(refusal(proofs), "ProgramCommitMismatch { index: 2 }");
}

#[test]
fn refuses_a_jump_between_segments() {
    let mut proofs = run();
    proofs[1].statement.per_air[1].public_values[0] = fe(44);
    assert_eq!(refusal(proofs), "InitialPcMismatch { initial: 44, prev_final: 40 }");
}

#[test]
fn refuses_changed_memory_between_segments() {
    let mut proofs = run();
    proofs[2].statement.per_air[2].public_values[3] = fe(0);
    assert_eq!(refusal(proofs), "InitialMemoryRootMismatch");
}

#[test]
fn refuses_an_early_or_missing_end() {
    let mut proofs = run();
    proofs[0].statement.per_air[1].public_values[3] = fe(1);
    assert_eq!(refusal(proofs), "IsTerminateMismatch { expected: false, actual: true }");
    let mut proofs = run();
    proofs.pop();
    assert_eq!(refusal(proofs), "IsTerminateMismatch { expected: true, actual: false }");
}

#[test]
fn the_last_proof_is_needed() {
    for kept in 1..3 {
        let mut proofs = run();
        proofs.truncate(kept);
        let expected = "IsTerminateMismatch { expected: true, actual: false }";
        assert_eq!(refusal(proofs), expected);
    }
}

#[test]
fn refuses_other_exit_codes() {
    let mut proofs = run();
    proofs[2].statement.per_air[1].public_values[2] = fe(3);
    assert_eq!(refusal(proofs), "ExitCodeMismatch { expected: 0, actual: 3 }");
    let mut proofs = run();
    proofs[0].statement.per_air[1].public_values[2] = fe(0);
    assert_eq!(refusal(proofs), "ExitCodeMismatch { expected: 42, actual: 0 }");
}

#[test]
fn refuses_unexpected_public_values() {
    let mut proofs = run();
    proofs[0].statement.per_air[3].public_values = vec![fe(1), fe(2)];
    assert_eq!(refusal(proofs), "UnexpectedPvs { expected: 0, actual: 2 }");
}

#[test]
fn refuses_missing_system_airs() {
    for (index, air_id) in [(0, 0), (1, 1), (2, 3)] {
        let mut proofs = run();
        proofs[0].statement.per_air.remove(index);
        if index == 0 {
            proofs[0].statement.main_trace.clear();
        }
        let expected = format!("SystemAirMissing {{ air_id: {} }}", air_id);
        assert_eq!(refusal(proofs), expected);
    }
}

#[test]
fn exit_codes() {
    assert_eq!(ExitCode::Success.code(), 0);
    assert_eq!(ExitCode::Error.code(), 1);
    assert_eq!(ExitCode::Suspended.code(), -1);
    assert_eq!(check_exit_code(0), Ok(()));
    assert_eq!(check_exit_code(7), Err(ExecutionError::FailedWithExitCode(7)));
    assert_eq!(check_termination(Ok(Some(0))), Ok(()));
    assert_eq!(check_termination(Ok(Some(1))), Err(ExecutionError::FailedWithExitCode(1)));
    assert_eq!(check_termination(Ok(None)), Err(ExecutionError::DidNotTerminate));
    assert_eq!(
        check_termination(Err(ExecutionError::Fail { pc: 8 })),
        Err(ExecutionError::Fail { pc: 8 })
    );
}
