//! What it means that the proofs of all segments are accepted.
use crate::arch::vm::verify::{
    check_air, check_airs, check_segment, check_segments, exit_code, expected_exit_code, final_pc,
    final_root, has_air, initial_pc, initial_root, is_terminate, AirVals, Boundary, JudgedProof,
    VmVerificationError, CONNECTOR_AIR_ID, MERKLE_AIR_ID, PROGRAM_AIR_ID,
};
use crate::field::PrimeField32;
use vstd::prelude::*;

verus! {

/// The AIR is the program, the connector or the memory tree.
pub open spec fn is_system(air: AirVals) -> bool {
    air.air_id == PROGRAM_AIR_ID || air.air_id == CONNECTOR_AIR_ID || air.air_id == MERKLE_AIR_ID
}

/// No AIR of the system occurs twice.
pub open spec fn system_airs_distinct(airs: Seq<AirVals>) -> bool {
    forall|j: int, k: int|
        0 <= j < k < airs.len() && is_system(#[trigger] airs[j]) ==> airs[j].air_id != (
        #[trigger] airs[k]).air_id
}

/// What an AIR of segment `i` must state, after a segment that carried `b` over.
pub open spec fn air_good(i: int, last: bool, commit: Seq<int>, air: AirVals, b: Boundary) -> bool {
    if air.air_id == PROGRAM_AIR_ID {
        i != 0 ==> b.program_commit == Some(commit)
    } else if air.air_id == CONNECTOR_AIR_ID {
        &&& i != 0 ==> b.final_pc == Some(initial_pc(air.pvs))
        &&& is_terminate(air.pvs) == (if last {
            1int
        } else {
            0
        })
        &&& exit_code(air.pvs) == expected_exit_code(last)
    } else if air.air_id == MERKLE_AIR_ID {
        i != 0 ==> b.final_root == Some(initial_root(air.pvs))
    } else {
        air.pvs.len() == 0
    }
}

/// What the first `k` AIRs carry over.
pub open spec fn carries(
    i: int,
    commit: Seq<int>,
    airs: Seq<AirVals>,
    k: int,
    b: Boundary,
    c: Boundary,
) -> bool {
    &&& i != 0 ==> c.program_commit == b.program_commit && c.start_pc == b.start_pc
        && c.initial_root == b.initial_root
    &&& forall|j: int|
        0 <= j < k && (#[trigger] airs[j]).air_id == PROGRAM_AIR_ID ==> (i == 0
            ==> c.program_commit == Some(commit))
    &&& forall|j: int|
        0 <= j < k && (#[trigger] airs[j]).air_id == CONNECTOR_AIR_ID ==> c.final_pc == Some(
            final_pc(airs[j].pvs),
        ) && (i == 0 ==> c.start_pc == Some(initial_pc(airs[j].pvs)))
    &&& forall|j: int|
        0 <= j < k && (#[trigger] airs[j]).air_id == MERKLE_AIR_ID ==> c.final_root == Some(
            final_root(airs[j].pvs),
        ) && (i == 0 ==> c.initial_root == Some(initial_root(airs[j].pvs)))
    &&& (forall|j: int| 0 <= j < k ==> (#[trigger] airs[j]).air_id != CONNECTOR_AIR_ID)
        ==> c.final_pc == b.final_pc
    &&& (forall|j: int| 0 <= j < k ==> (#[trigger] airs[j]).air_id != MERKLE_AIR_ID)
        ==> c.final_root == b.final_root
}

/// The checks of the first `k` AIRs succeed exactly if each AIR states what it must, and carry over
/// what the AIRs state.
pub proof fn lemma_airs<S, U>(
    i: int,
    last: bool,
    commit: Seq<int>,
    airs: Seq<AirVals>,
    k: int,
    b: Boundary,
)
    requires
        0 <= k <= airs.len(),
        system_airs_distinct(airs),
    ensures
        check_airs::<S, U>(i, last, commit, airs, k, b) is Ok <==> forall|j: int|
            0 <= j < k ==> air_good(i, last, commit, #[trigger] airs[j], b),
        check_airs::<S, U>(i, last, commit, airs, k, b) matches Ok(c) ==> carries(
            i,
            commit,
            airs,
            k,
            b,
            c,
        ),
    decreases k,
{
    if k > 0 {
        lemma_airs::<S, U>(i, last, commit, airs, k - 1, b);
        let air = airs[k - 1];
        match check_airs::<S, U>(i, last, commit, airs, k - 1, b) {
            Ok(c) => {
                if is_system(air) {
                    assert forall|j: int| 0 <= j < k - 1 implies (#[trigger] airs[j]).air_id
                        != air.air_id by {
                        if airs[j].air_id == air.air_id {
                            assert(is_system(airs[j]));
                        }
                    }
                }
                assert(check_air::<S, U>(i, last, commit, air, c) is Ok <==> air_good(
                    i,
                    last,
                    commit,
                    air,
                    b,
                ));
            },
            Err(_) => {},
        }
    }
}

/// The connector of the segment.
pub open spec fn connector(airs: Seq<AirVals>) -> AirVals {
    airs[choose|k: int| 0 <= k < airs.len() && (#[trigger] airs[k]).air_id == CONNECTOR_AIR_ID]
}

/// The memory tree of the segment.
pub open spec fn merkle(airs: Seq<AirVals>) -> AirVals {
    airs[choose|k: int| 0 <= k < airs.len() && (#[trigger] airs[k]).air_id == MERKLE_AIR_ID]
}

/// What the proof of a segment states by itself: the proof system accepts it, it has all AIRs of
/// the system, no other AIR has public values, and it terminates with success exactly if it is
/// the last.
pub open spec fn segment_good<F: PrimeField32, S>(last: bool, proof: JudgedProof<F, S>) -> bool {
    let airs = proof.airs();
    &&& proof.stark is Ok
    &&& has_air(airs, PROGRAM_AIR_ID)
    &&& has_air(airs, CONNECTOR_AIR_ID)
    &&& has_air(airs, MERKLE_AIR_ID)
    &&& forall|k: int|
        0 <= k < airs.len() && !is_system(#[trigger] airs[k]) ==> airs[k].pvs.len() == 0
    &&& is_terminate(connector(airs).pvs) == (if last {
        1int
    } else {
        0
    })
    &&& exit_code(connector(airs).pvs) == expected_exit_code(last)
}

/// A segment goes on where the one before ended, in the same program.
pub open spec fn continues<F: PrimeField32, S>(
    before: JudgedProof<F, S>,
    after: JudgedProof<F, S>,
) -> bool {
    &&& after.commit() == before.commit()
    &&& initial_pc(connector(after.airs()).pvs) == final_pc(connector(before.airs()).pvs)
    &&& initial_root(merkle(after.airs()).pvs) == final_root(merkle(before.airs()).pvs)
}

/// The first `k` segments are good, and each continues the one before.
pub open spec fn chain_good<F: PrimeField32, S>(proofs: Seq<JudgedProof<F, S>>, k: int) -> bool {
    &&& forall|i: int|
        0 <= i < k ==> segment_good(i == proofs.len() - 1, #[trigger] proofs[i])
    &&& forall|i: int| 0 < i < k ==> continues(proofs[i - 1], #[trigger] proofs[i])
}

/// What is known after the first `k` segments.
pub open spec fn chain_boundary<F: PrimeField32, S>(
    proofs: Seq<JudgedProof<F, S>>,
    k: int,
) -> Boundary {
    if k <= 0 {
        Boundary::empty()
    } else {
        Boundary {
            program_commit: Some(proofs[0].commit()),
            start_pc: Some(initial_pc(connector(proofs[0].airs()).pvs)),
            initial_root: Some(initial_root(merkle(proofs[0].airs()).pvs)),
            final_pc: Some(final_pc(connector(proofs[k - 1].airs()).pvs)),
            final_root: Some(final_root(merkle(proofs[k - 1].airs()).pvs)),
        }
    }
}

proof fn lemma_unique(airs: Seq<AirVals>, k: int)
    requires
        system_airs_distinct(airs),
        0 <= k < airs.len(),
    ensures
        airs[k].air_id == CONNECTOR_AIR_ID ==> connector(airs) == airs[k],
        airs[k].air_id == MERKLE_AIR_ID ==> merkle(airs) == airs[k],
{
    if airs[k].air_id == CONNECTOR_AIR_ID {
        let j = choose|j: int|
            0 <= j < airs.len() && (#[trigger] airs[j]).air_id == CONNECTOR_AIR_ID;
        assert(is_system(airs[j]) && is_system(airs[k]));
    }
    if airs[k].air_id == MERKLE_AIR_ID {
        let j = choose|j: int|
            0 <= j < airs.len() && (#[trigger] airs[j]).air_id == MERKLE_AIR_ID;
        assert(is_system(airs[j]) && is_system(airs[k]));
    }
}

/// One segment after a good chain.
proof fn lemma_segment<F: PrimeField32, S, U>(proofs: Seq<JudgedProof<F, S>>, i: int)
    requires
        0 <= i < proofs.len(),
        system_airs_distinct(proofs[i].airs()),
        chain_good(proofs, i),
    ensures
        ({
            let last = i == proofs.len() - 1;
            let r = check_segment::<F, S, U>(i, last, proofs[i], chain_boundary(proofs, i));
            &&& r is Ok <==> chain_good(proofs, i + 1)
            &&& r matches Ok(b) ==> b == chain_boundary(proofs, i + 1)
        }),
{
    let last = i == proofs.len() - 1;
    let proof = proofs[i];
    let airs = proof.airs();
    let b = chain_boundary(proofs, i);
    if proof.stark is Ok {
        lemma_airs::<S, U>(i, last, proof.commit(), airs, airs.len() as int, b);
        assert forall|k: int| 0 <= k < airs.len() implies {
            &&& (#[trigger] airs[k]).air_id == CONNECTOR_AIR_ID ==> connector(airs) == airs[k]
            &&& airs[k].air_id == MERKLE_AIR_ID ==> merkle(airs) == airs[k]
        } by {
            lemma_unique(airs, k);
        }
        let all_good = forall|j: int|
            0 <= j < airs.len() ==> air_good(i, last, proof.commit(), #[trigger] airs[j], b);
        let all_present = has_air(airs, PROGRAM_AIR_ID) && has_air(airs, CONNECTOR_AIR_ID)
            && has_air(airs, MERKLE_AIR_ID);
        if all_present {
            let p = choose|k: int| 0 <= k < airs.len() && (#[trigger] airs[k]).air_id
                == PROGRAM_AIR_ID;
            let c = choose|k: int| 0 <= k < airs.len() && (#[trigger] airs[k]).air_id
                == CONNECTOR_AIR_ID;
            let m = choose|k: int| 0 <= k < airs.len() && (#[trigger] airs[k]).air_id
                == MERKLE_AIR_ID;
            assert(connector(airs) == airs[c] && merkle(airs) == airs[m]);
            if all_good {
                assert(air_good(i, last, proof.commit(), airs[p], b));
                assert(air_good(i, last, proof.commit(), airs[c], b));
                assert(air_good(i, last, proof.commit(), airs[m], b));
                assert forall|k: int|
                    0 <= k < airs.len() && !is_system(#[trigger] airs[k]) implies airs[k].pvs.len()
                    == 0 by {
                    assert(air_good(i, last, proof.commit(), airs[k], b));
                }
                assert(segment_good(last, proof));
                if i > 0 {
                    assert(b.program_commit == Some(proofs[0].commit()));
                    lemma_chain_commit(proofs, i, i - 1);
                    assert(continues(proofs[i - 1], proofs[i]));
                }
                assert(chain_good(proofs, i + 1));
            } else {
                if chain_good(proofs, i + 1) {
                    assert(segment_good(last, proofs[i]));
                    if i > 0 {
                        assert(continues(proofs[i - 1], proofs[i]));
                        lemma_chain_commit(proofs, i, i - 1);
                    }
                    assert(all_good);
                }
            }
        } else {
            assert(!segment_good(last, proofs[i]));
        }
    } else {
        assert(!segment_good(last, proofs[i]));
    }
}

/// All segments of a good chain are of one program.
proof fn lemma_chain_commit<F: PrimeField32, S>(proofs: Seq<JudgedProof<F, S>>, k: int, i: int)
    requires
        0 <= i < k <= proofs.len(),
        chain_good(proofs, k),
    ensures
        proofs[i].commit() == proofs[0].commit(),
    decreases i,
{
    if i > 0 {
        lemma_chain_commit(proofs, k, i - 1);
        assert(continues(proofs[i - 1], proofs[i]));
    }
}

/// The checks of the first `k` segments succeed exactly if they form a good chain.
pub proof fn lemma_chain<F: PrimeField32, S, U>(proofs: Seq<JudgedProof<F, S>>, k: int)
    requires
        0 <= k <= proofs.len(),
        forall|i: int|
            0 <= i < proofs.len() ==> system_airs_distinct((#[trigger] proofs[i]).airs()),
    ensures
        check_segments::<F, S, U>(proofs, k) is Ok <==> chain_good(proofs, k),
        check_segments::<F, S, U>(proofs, k) matches Ok(b) ==> b == chain_boundary(proofs, k),
    decreases k,
{
    if k > 0 {
        lemma_chain::<F, S, U>(proofs, k - 1);
        if chain_good(proofs, k - 1) {
            assert(system_airs_distinct(proofs[k - 1].airs()));
            lemma_segment::<F, S, U>(proofs, k - 1);
        } else {
            assert(!chain_good(proofs, k)) by {
                if chain_good(proofs, k) {
                    assert(chain_good(proofs, k - 1));
                }
            }
        }
    }
}

/// A segment that is accepted as one that goes on is refused as the last one: at its connector,
/// which does not terminate.
proof fn lemma_airs_as_last<S, U>(
    i: int,
    commit: Seq<int>,
    airs: Seq<AirVals>,
    k: int,
    b: Boundary,
)
    requires
        0 <= k <= airs.len(),
        check_airs::<S, U>(i, false, commit, airs, k, b) is Ok,
    ensures
        check_airs::<S, U>(i, true, commit, airs, k, b) == (if exists|j: int|
            0 <= j < k && (#[trigger] airs[j]).air_id == CONNECTOR_AIR_ID {
            Err(VmVerificationError::IsTerminateMismatch { expected: true, actual: false })
        } else {
            check_airs::<S, U>(i, false, commit, airs, k, b)
        }),
    decreases k,
{
    if k > 0 {
        lemma_airs_as_last::<S, U>(i, commit, airs, k - 1, b);
        let k1 = k - 1;
        let before = exists|j: int|
            0 <= j < k1 && (#[trigger] airs[j]).air_id == CONNECTOR_AIR_ID;
        if airs[k1].air_id == CONNECTOR_AIR_ID {
            assert(exists|j: int| 0 <= j < k && (#[trigger] airs[j]).air_id == CONNECTOR_AIR_ID);
        }
        if before {
            let j = choose|j: int|
                0 <= j < k1 && (#[trigger] airs[j]).air_id == CONNECTOR_AIR_ID;
            assert(0 <= j < k && airs[j].air_id == CONNECTOR_AIR_ID);
        }
    }
}

proof fn lemma_segments_without_last<F: PrimeField32, S, U>(
    proofs: Seq<JudgedProof<F, S>>,
    k: int,
)
    requires
        0 <= k <= proofs.len() - 2,
    ensures
        check_segments::<F, S, U>(proofs.drop_last(), k) == check_segments::<F, S, U>(proofs, k),
    decreases k,
{
    if k > 0 {
        lemma_segments_without_last::<F, S, U>(proofs, k - 1);
    }
}

/// Accepted proofs without the last one are refused: the segment before it does not terminate.
pub proof fn law_last_proof_is_needed<F: PrimeField32, S, U>(proofs: Seq<JudgedProof<F, S>>)
    requires
        proofs.len() >= 2,
        check_segments::<F, S, U>(proofs, proofs.len() as int) is Ok,
    ensures
        check_segments::<F, S, U>(proofs.drop_last(), proofs.len() - 1) == Err::<
            Boundary,
            VmVerificationError<S, U>,
        >(VmVerificationError::IsTerminateMismatch { expected: true, actual: false }),
{
    let n = proofs.len() as int;
    let proof = proofs[n - 2];
    lemma_segments_without_last::<F, S, U>(proofs, n - 2);
    assert(check_segments::<F, S, U>(proofs, n - 1) is Ok);
    let b = check_segments::<F, S, U>(proofs, n - 2)->Ok_0;
    let airs = proof.airs();
    lemma_airs_as_last::<S, U>(n - 2, proof.commit(), airs, airs.len() as int, b);
    assert(proofs.drop_last()[n - 2] == proof);
}

/// The proofs of all segments are accepted exactly if each is good by itself, each continues the
/// one before, and only the last terminates, with success. What is returned is the commitment to
/// the program, where the first segment starts and where the last one ends.
pub proof fn law_verify_segments<F: PrimeField32, S, U>(proofs: Seq<JudgedProof<F, S>>)
    requires
        proofs.len() > 0,
        forall|i: int|
            0 <= i < proofs.len() ==> system_airs_distinct((#[trigger] proofs[i]).airs()),
    ensures
        check_segments::<F, S, U>(proofs, proofs.len() as int) is Ok <==> chain_good(
            proofs,
            proofs.len() as int,
        ),
        check_segments::<F, S, U>(proofs, proofs.len() as int) matches Ok(b) ==> b
            == chain_boundary(proofs, proofs.len() as int),
{
    lemma_chain::<F, S, U>(proofs, proofs.len() as int);
}

} // verus!
