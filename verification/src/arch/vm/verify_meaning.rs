//! What accepted proofs have in common, in the values that they hold.
use crate::air::array_vals;
use crate::arch::vm::verify::{
    check_air, check_airs, check_segment, check_segments, final_root, has_air, initial_root, judges,
    says, verdict_on, Boundary, JudgedProof, ProofVerifier, SegmentProof, Statement,
    VerifiedBoundary, VerifiedExecutionPayload, VmVerificationError, CHUNK,
};
use crate::arch::vm::verify_laws::{
    chain_boundary, chain_good, connector, continues, is_system, law_verify_segments, lemma_airs,
    lemma_chain, merkle, segment_good, system_airs_distinct,
};
use crate::field::PrimeField32;
use vstd::prelude::*;

verus! {

/// Entry `k` is of the given AIR: the program has index 0, the connector 1 and the memory tree 3.
pub open spec fn is_air<F: PrimeField32>(statement: Statement<F>, k: int, id: int) -> bool {
    0 <= k < statement.per_air@.len() && statement.per_air@[k].air_id == id
}

/// Public value `c` of entry `k`.
pub open spec fn public_value<F: PrimeField32>(statement: Statement<F>, k: int, c: int) -> int {
    statement.per_air@[k].public_values@[c].val()
}

/// Element `c` of the first commitment to a main trace.
pub open spec fn first_commitment<F: PrimeField32>(statement: Statement<F>, c: int) -> int {
    statement.main_trace@[0][c].val()
}

/// No system AIR has two entries.
pub open spec fn entries_distinct<F: PrimeField32>(statement: Statement<F>) -> bool {
    forall|j: int, k: int, id: int|
        #[trigger] is_air(statement, j, id) && #[trigger] is_air(statement, k, id) && (id == 0 || id
            == 1 || id == 3) ==> j == k
}

/// There is a commitment if there is the program, four public values at the connector and sixteen
/// at the memory tree.
pub open spec fn entries_complete<F: PrimeField32>(statement: Statement<F>) -> bool {
    &&& forall|k: int| #[trigger] is_air(statement, k, 0) ==> statement.main_trace@.len() > 0
    &&& forall|k: int| #[trigger]
        is_air(statement, k, 1) ==> statement.per_air@[k].public_values@.len() == 4
    &&& forall|k: int| #[trigger]
        is_air(statement, k, 3) ==> statement.per_air@[k].public_values@.len() == 16
}

/// What a segment states by itself: it has the program, the connector and the memory tree; no other
/// entry has public values; the connector says whether the program ended, which it does in the last
/// segment and no other, with exit code 0, and with exit code 42 where it goes on.
pub open spec fn sound_alone<F: PrimeField32>(statement: Statement<F>, last: bool) -> bool {
    &&& exists|k: int| #[trigger] is_air(statement, k, 0)
    &&& exists|k: int| #[trigger] is_air(statement, k, 1)
    &&& exists|k: int| #[trigger] is_air(statement, k, 3)
    &&& forall|k: int|
        0 <= k < statement.per_air@.len() && !is_air(statement, k, 0) && !is_air(statement, k, 1)
            && !is_air(statement, k, 3) ==> (
        #[trigger] statement.per_air@[k]).public_values@.len() == 0
    &&& forall|k: int| #[trigger]
        is_air(statement, k, 1) ==> public_value(statement, k, 3) == (if last {
            1int
        } else {
            0
        }) && public_value(statement, k, 2) == (if last {
            0int
        } else {
            42
        })
}

/// A segment goes on where the one before it ended: the first commitments are equal, the connector
/// starts at the program counter that the one before ended at, and the memory tree starts with the
/// root that the one before ended with.
pub open spec fn sound_after<F: PrimeField32>(before: Statement<F>, after: Statement<F>) -> bool {
    &&& forall|c: int|
        0 <= c < 8 ==> #[trigger] first_commitment(after, c) == first_commitment(before, c)
    &&& forall|j: int, k: int| #[trigger]
        is_air(before, j, 1) && #[trigger] is_air(after, k, 1) ==> public_value(after, k, 0)
            == public_value(before, j, 1)
    &&& forall|j: int, k: int, c: int|
        is_air(before, j, 3) && is_air(after, k, 3) && 0 <= c < 8 ==> #[trigger] public_value(
            after,
            k,
            c,
        ) == #[trigger] public_value(before, j, 8 + c)
}

/// Each segment is sound by itself, and each goes on where the one before it ended.
pub open spec fn all_sound<F: PrimeField32>(statements: Seq<Statement<F>>) -> bool {
    &&& forall|i: int|
        0 <= i < statements.len() ==> sound_alone(
            #[trigger] statements[i],
            i == statements.len() - 1,
        )
    &&& forall|i: int|
        0 < i < statements.len() ==> sound_after(statements[i - 1], #[trigger] statements[i])
}

/// What the segments state.
pub open spec fn statements_of<F: PrimeField32, S>(proofs: Seq<JudgedProof<F, S>>) -> Seq<
    Statement<F>,
> {
    Seq::new(proofs.len(), |i: int| proofs[i].statement)
}

proof fn lemma_entry<F: PrimeField32, S>(proof: JudgedProof<F, S>, k: int)
    requires
        0 <= k < proof.statement.per_air@.len(),
    ensures
        k < proof.airs().len(),
        proof.airs()[k].air_id == proof.statement.per_air@[k].air_id,
        proof.airs()[k].pvs.len() == proof.statement.per_air@[k].public_values@.len(),
        forall|c: int|
            0 <= c < proof.airs()[k].pvs.len() ==> #[trigger] proof.airs()[k].pvs[c]
                == public_value(proof.statement, k, c),
        forall|id: int| is_air(proof.statement, k, id) <==> proof.airs()[k].air_id == id,
{
}

proof fn lemma_distinct<F: PrimeField32, S>(proof: JudgedProof<F, S>)
    requires
        entries_distinct(proof.statement),
    ensures
        system_airs_distinct(proof.airs()),
        forall|k: int| is_air(proof.statement, k, 1) ==> connector(proof.airs()) == #[trigger] proof.airs()[k],
        forall|k: int| is_air(proof.statement, k, 3) ==> merkle(proof.airs()) == #[trigger] proof.airs()[k],
        has_air(proof.airs(), 0) == exists|k: int| #[trigger] is_air(proof.statement, k, 0),
        has_air(proof.airs(), 1) == exists|k: int| #[trigger] is_air(proof.statement, k, 1),
        has_air(proof.airs(), 3) == exists|k: int| #[trigger] is_air(proof.statement, k, 3),
{
    let airs = proof.airs();
    assert(airs.len() == proof.statement.per_air@.len());
    assert forall|k: int| 0 <= k < airs.len() implies (#[trigger] airs[k]).air_id
        == proof.statement.per_air@[k].air_id by {
        lemma_entry(proof, k);
    }
    assert forall|j: int, k: int|
        0 <= j < k < airs.len() && is_system(#[trigger] airs[j])
        implies airs[j].air_id != (#[trigger] airs[k]).air_id by {
        if airs[j].air_id == airs[k].air_id {
            let id = airs[j].air_id as int;
            assert(is_air(proof.statement, j, id) && is_air(proof.statement, k, id));
        }
    }
    assert forall|k: int| is_air(proof.statement, k, 1) implies connector(airs) == #[trigger] airs[k] by {
        let j = choose|j: int| 0 <= j < airs.len() && (#[trigger] airs[j]).air_id == 1;
        assert(airs[k].air_id == 1);
        assert(is_air(proof.statement, j, 1));
    }
    assert forall|k: int| is_air(proof.statement, k, 3) implies merkle(airs) == #[trigger] airs[k] by {
        let j = choose|j: int| 0 <= j < airs.len() && (#[trigger] airs[j]).air_id == 3;
        assert(airs[k].air_id == 3);
        assert(is_air(proof.statement, j, 3));
    }
    lemma_present(proof, 0);
    lemma_present(proof, 1);
    lemma_present(proof, 3);
}

proof fn lemma_present<F: PrimeField32, S>(proof: JudgedProof<F, S>, id: usize)
    ensures
        has_air(proof.airs(), id) == exists|k: int| #[trigger] is_air(proof.statement, k, id as int),
{
    let airs = proof.airs();
    if has_air(airs, id) {
        let k = choose|k: int| 0 <= k < airs.len() && (#[trigger] airs[k]).air_id == id;
        assert(is_air(proof.statement, k, id as int));
    }
    if exists|k: int| #[trigger] is_air(proof.statement, k, id as int) {
        let k = choose|k: int| #[trigger] is_air(proof.statement, k, id as int);
        assert(airs[k].air_id == id);
    }
}

proof fn lemma_alone<F: PrimeField32, S>(proof: JudgedProof<F, S>, last: bool)
    requires
        entries_distinct(proof.statement),
        proof.stark is Ok ==> entries_complete(proof.statement),
    ensures
        segment_good(last, proof) <==> proof.stark is Ok && sound_alone(proof.statement, last),
{
    lemma_distinct(proof);
    let airs = proof.airs();
    assert forall|k: int| 0 <= k < airs.len() implies {
        &&& (#[trigger] airs[k]).air_id == proof.statement.per_air@[k].air_id
        &&& airs[k].pvs.len() == proof.statement.per_air@[k].public_values@.len()
    } by {
        lemma_entry(proof, k);
    }
    assert forall|k: int| #[trigger] is_air(proof.statement, k, 1) && proof.stark is Ok implies {
        &&& airs[k].pvs[2] == public_value(proof.statement, k, 2)
        &&& airs[k].pvs[3] == public_value(proof.statement, k, 3)
        &&& connector(airs) == airs[k]
    } by {
        lemma_entry(proof, k);
        assert(airs[k].pvs.len() == 4);
    }
    if segment_good(last, proof) {
        assert forall|k: int|
            0 <= k < proof.statement.per_air@.len() && !is_air(proof.statement, k, 0) && !is_air(proof.statement, k, 1)
                && !is_air(proof.statement, k, 3) implies (
        #[trigger] proof.statement.per_air@[k]).public_values@.len() == 0 by {
            assert(!is_system(airs[k]));
        }
        assert(sound_alone(proof.statement, last));
    }
    if proof.stark is Ok && sound_alone(proof.statement, last) {
        assert forall|k: int|
            0 <= k < airs.len() && !is_system(
                #[trigger] airs[k],
            ) implies airs[k].pvs.len() == 0 by {
            assert(proof.statement.per_air@[k].public_values@.len() == 0);
        }
        let k = choose|k: int| #[trigger] is_air(proof.statement, k, 1);
        assert(is_air(proof.statement, k, 1));
        assert(segment_good(last, proof));
    }
}

proof fn lemma_commit<F: PrimeField32, S>(proof: JudgedProof<F, S>)
    requires
        proof.statement.main_trace@.len() > 0,
    ensures
        proof.commit().len() == 8,
        forall|c: int|
            0 <= c < 8 ==> #[trigger] proof.commit()[c] == first_commitment(proof.statement, c),
{
}

proof fn lemma_follows<F: PrimeField32, S>(before: JudgedProof<F, S>, after: JudgedProof<F, S>)
    requires
        entries_distinct(before.statement),
        entries_complete(before.statement),
        entries_distinct(after.statement),
        entries_complete(after.statement),
        before.stark is Ok,
        after.stark is Ok,
        exists|k: int| #[trigger] is_air(before.statement, k, 0),
        exists|k: int| #[trigger] is_air(before.statement, k, 1),
        exists|k: int| #[trigger] is_air(before.statement, k, 3),
        exists|k: int| #[trigger] is_air(after.statement, k, 0),
        exists|k: int| #[trigger] is_air(after.statement, k, 1),
        exists|k: int| #[trigger] is_air(after.statement, k, 3),
    ensures
        continues(before, after) <==> sound_after(before.statement, after.statement),
{
    lemma_distinct(before);
    lemma_distinct(after);
    let j0 = choose|k: int| #[trigger] is_air(before.statement, k, 0);
    let k0 = choose|k: int| #[trigger] is_air(after.statement, k, 0);
    lemma_commit(before);
    lemma_commit(after);
    let j1 = choose|k: int| #[trigger] is_air(before.statement, k, 1);
    let k1 = choose|k: int| #[trigger] is_air(after.statement, k, 1);
    let j3 = choose|k: int| #[trigger] is_air(before.statement, k, 3);
    let k3 = choose|k: int| #[trigger] is_air(after.statement, k, 3);
    lemma_entry(before, j1);
    lemma_entry(after, k1);
    lemma_entry(before, j3);
    lemma_entry(after, k3);
    let (bp, ap) = (before.airs()[j1].pvs, after.airs()[k1].pvs);
    let (bm, am) = (before.airs()[j3].pvs, after.airs()[k3].pvs);
    assert(connector(before.airs()).pvs == bp && connector(after.airs()).pvs == ap);
    assert(merkle(before.airs()).pvs == bm && merkle(after.airs()).pvs == am);
    assert(bp[1] == public_value(before.statement, j1, 1) && ap[0] == public_value(after.statement, k1, 0));
    if continues(before, after) {
        assert forall|c: int| 0 <= c < 8 implies #[trigger] first_commitment(after.statement, c)
            == first_commitment(before.statement, c) by {
            assert(after.commit()[c] == before.commit()[c]);
        }
        assert forall|j: int, k: int, c: int|
            is_air(before.statement, j, 3) && is_air(after.statement, k, 3) && 0 <= c < 8 implies #[trigger] public_value(after.statement,
            k,
            c,
        ) == #[trigger] public_value(before.statement, j, 8 + c) by {
            assert(j == j3 && k == k3);
            assert(initial_root(am)[c] == am[c]);
            assert(final_root(bm)[c] == bm[8 + c]);
        }
    }
    if sound_after(before.statement, after.statement) {
        assert(after.commit() =~= before.commit()) by {
            assert forall|c: int| 0 <= c < 8 implies after.commit()[c] == before.commit()[c] by {
                assert(first_commitment(after.statement, c) == first_commitment(before.statement, c));
            }
        }
        assert(initial_root(am) =~= final_root(bm)) by {
            assert forall|c: int| 0 <= c < 8 implies initial_root(am)[c] == final_root(bm)[c] by {
                assert(public_value(after.statement, k3, c) == public_value(before.statement, j3, 8 + c));
            }
        }
    }
}

/// The proofs of all segments are accepted exactly if the proof system accepts each, each is sound
/// by itself and each goes on where the one before it ended.
pub proof fn law_accepted_exactly_if_sound<F: PrimeField32, S, U>(proofs: Seq<JudgedProof<F, S>>)
    requires
        proofs.len() > 0,
        forall|i: int|
            0 <= i < proofs.len() ==> entries_distinct((#[trigger] proofs[i]).statement) && (
            proofs[i].stark is Ok ==> entries_complete(proofs[i].statement)),
    ensures
        check_segments::<F, S, U>(proofs, proofs.len() as int) is Ok <==> {
            &&& forall|i: int| 0 <= i < proofs.len() ==> (#[trigger] proofs[i]).stark is Ok
            &&& all_sound(statements_of(proofs))
        },
{
    assert forall|i: int| 0 <= i < proofs.len() implies system_airs_distinct(
        (#[trigger] proofs[i]).airs(),
    ) by {
        lemma_distinct(proofs[i]);
    }
    law_verify_segments::<F, S, U>(proofs);
    let n = proofs.len() as int;
    let statements = statements_of(proofs);
    assert forall|i: int| 0 <= i < n implies segment_good(i == n - 1, #[trigger] proofs[i]) == (
    proofs[i].stark is Ok && sound_alone(statements[i], i == n - 1)) by {
        lemma_alone(proofs[i], i == n - 1);
    }
    let accepted = forall|i: int| 0 <= i < n ==> (#[trigger] proofs[i]).stark is Ok;
    let alone = forall|i: int| 0 <= i < n ==> sound_alone(#[trigger] statements[i], i == n - 1);
    if chain_good(proofs, n) || (accepted && alone) {
        assert forall|i: int| 0 <= i < n implies (#[trigger] proofs[i]).stark is Ok && sound_alone(
            statements[i],
            i == n - 1,
        ) by {
            if chain_good(proofs, n) {
                assert(segment_good(i == n - 1, proofs[i]));
            }
        }
        assert forall|i: int| 0 <= i < n implies sound_alone(
            #[trigger] statements[i],
            i == n - 1,
        ) by {
            assert(proofs[i].stark is Ok);
        }
        assert forall|i: int| 0 < i < n implies continues(proofs[i - 1], #[trigger] proofs[i])
            == sound_after(statements[i - 1], statements[i]) by {
            assert(sound_alone(statements[i - 1], i - 1 == n - 1));
            assert(sound_alone(statements[i], i == n - 1));
            lemma_follows(proofs[i - 1], proofs[i]);
        }
        if chain_good(proofs, n) {
            assert forall|i: int| 0 < i < n implies sound_after(
                statements[i - 1],
                #[trigger] statements[i],
            ) by {
                assert(continues(proofs[i - 1], proofs[i]));
            }
        }
        if all_sound(statements) {
            assert forall|i: int| 0 < i < n implies continues(
                proofs[i - 1],
                #[trigger] proofs[i],
            ) by {
                assert(sound_after(statements[i - 1], statements[i]));
            }
        }
    }
}

/// The values that accepted proofs say of the whole execution: the first commitment, which is that
/// of every segment; the program counter and the memory root that the first segment starts with; and
/// the memory root that the last segment ends with.
pub open spec fn spans<F: PrimeField32>(
    statements: Seq<Statement<F>>,
    program_commit: [F; CHUNK],
    initial_memory_root: [F; CHUNK],
    start_pc: F,
    final_memory_root: [F; CHUNK],
) -> bool {
    &&& forall|i: int, c: int|
        0 <= i < statements.len() && 0 <= c < 8 ==> program_commit[c].val()
            == #[trigger] first_commitment(statements[i], c)
    &&& forall|k: int| #[trigger]
        is_air(statements[0], k, 1) ==> start_pc.val() == public_value(statements[0], k, 0)
    &&& forall|k: int, c: int|
        is_air(statements[0], k, 3) && 0 <= c < 8 ==> initial_memory_root[c].val()
            == #[trigger] public_value(statements[0], k, c)
    &&& forall|k: int, c: int|
        is_air(statements.last(), k, 3) && 8 <= c < 16 ==> final_memory_root[c - 8].val()
            == #[trigger] public_value(statements.last(), k, c)
}

/// The first commitments of accepted proofs are equal.
proof fn lemma_one_program<F: PrimeField32>(statements: Seq<Statement<F>>, i: int, c: int)
    requires
        all_sound(statements),
        0 <= i < statements.len(),
        0 <= c < 8,
    ensures
        first_commitment(statements[i], c) == first_commitment(statements[0], c),
    decreases i,
{
    if i > 0 {
        lemma_one_program(statements, i - 1, c);
        assert(sound_after(statements[i - 1], statements[i]));
    }
}

/// What accepted proofs say of the whole execution is what their segments state: the commitment to
/// the program is the first commitment of every segment, whatever their other commitments are, and
/// the rest comes from the first and the last segment.
pub proof fn law_accepted_values<F: PrimeField32, S, U>(
    proofs: Seq<JudgedProof<F, S>>,
    v: VerifiedBoundary<F>,
)
    requires
        proofs.len() > 0,
        forall|i: int|
            0 <= i < proofs.len() ==> entries_distinct((#[trigger] proofs[i]).statement) && (
            proofs[i].stark is Ok ==> entries_complete(proofs[i].statement)),
        check_segments::<F, S, U>(proofs, proofs.len() as int) matches Ok(b) && v.is_of(b),
    ensures
        spans(
            statements_of(proofs),
            v.program_commit,
            v.initial_memory_root,
            v.start_pc,
            v.final_memory_root,
        ),
{
    law_accepted_exactly_if_sound::<F, S, U>(proofs);
    let n = proofs.len() as int;
    let statements = statements_of(proofs);
    assert forall|i: int| 0 <= i < n implies system_airs_distinct(
        (#[trigger] proofs[i]).airs(),
    ) by {
        lemma_distinct(proofs[i]);
    }
    law_verify_segments::<F, S, U>(proofs);
    let b = chain_boundary(proofs, n);
    assert(proofs[0].stark is Ok && proofs[n - 1].stark is Ok);
    assert(sound_alone(statements[0], 0 == n - 1));
    assert(sound_alone(statements[n - 1], true));
    let program = choose|k: int| #[trigger] is_air(statements[0], k, 0);
    assert(is_air(proofs[0].statement, program, 0));
    lemma_commit(proofs[0]);
    assert forall|i: int, c: int| 0 <= i < n && 0 <= c < 8 implies v.program_commit[c].val()
        == #[trigger] first_commitment(statements[i], c) by {
        lemma_one_program(statements, i, c);
        assert(array_vals(v.program_commit)[c] == v.program_commit[c].val());
        assert(proofs[0].commit()[c] == first_commitment(proofs[0].statement, c));
    }
    lemma_distinct(proofs[0]);
    lemma_distinct(proofs[n - 1]);
    assert forall|k: int| #[trigger] is_air(statements[0], k, 1) implies v.start_pc.val()
        == public_value(statements[0], k, 0) by {
        lemma_entry(proofs[0], k);
    }
    assert forall|k: int, c: int|
        is_air(statements[0], k, 3) && 0 <= c < 8 implies v.initial_memory_root[c].val()
        == #[trigger] public_value(statements[0], k, c) by {
        lemma_entry(proofs[0], k);
        let pvs = proofs[0].airs()[k].pvs;
        assert(initial_root(pvs)[c] == pvs[c]);
        assert(array_vals(v.initial_memory_root)[c] == v.initial_memory_root[c].val());
    }
    assert forall|k: int, c: int|
        is_air(statements.last(), k, 3) && 8 <= c < 16 implies v.final_memory_root[c - 8].val()
        == #[trigger] public_value(statements.last(), k, c) by {
        lemma_entry(proofs[n - 1], k);
        let pvs = proofs[n - 1].airs()[k].pvs;
        assert(final_root(pvs)[c - 8] == pvs[c]);
        assert(array_vals(v.final_memory_root)[c - 8] == v.final_memory_root[c - 8].val());
    }
}

/// The verdict on proofs reads the first commitment of each and no other.
pub proof fn law_other_commitments_are_not_read<F: PrimeField32, S, U>(
    proofs: Seq<JudgedProof<F, S>>,
    others: Seq<JudgedProof<F, S>>,
    k: int,
)
    requires
        proofs.len() == others.len(),
        0 <= k <= proofs.len(),
        forall|i: int|
            0 <= i < proofs.len() ==> {
                &&& (#[trigger] proofs[i]).stark == others[i].stark
                &&& proofs[i].statement.per_air@ == others[i].statement.per_air@
                &&& proofs[i].statement.main_trace@.len() > 0
                &&& others[i].statement.main_trace@.len() > 0
                &&& proofs[i].statement.main_trace@[0] == others[i].statement.main_trace@[0]
            },
    ensures
        check_segments::<F, S, U>(proofs, k) == check_segments::<F, S, U>(others, k),
    decreases k,
{
    if k > 0 {
        law_other_commitments_are_not_read::<F, S, U>(proofs, others, k - 1);
        let (p, q) = (proofs[k - 1], others[k - 1]);
        assert(p.stark == q.stark);
        assert(p.airs() == q.airs());
        assert(p.commit() == q.commit());
    }
}

/// The proof system accepts a proof.
pub open spec fn accepted_by<E: ProofVerifier>(
    engine: E,
    vk: E::VerifyingKey,
    proof: E::Proof,
) -> bool {
    exists|verdict: Result<(), E::Error>| #[trigger]
        says(engine, vk, proof, verdict) && verdict is Ok
}

/// What the verification of the proofs of all segments returns: the error of the verdict on them, or
/// what they say of the whole execution.
pub open spec fn verified_as<
    F: PrimeField32,
    E: ProofVerifier,
    U,
    H: Fn([F; CHUNK], [F; CHUNK], F) -> [F; CHUNK],
>(
    engine: E,
    vk: E::VerifyingKey,
    proofs: Seq<SegmentProof<F, E::Proof>>,
    compute_exe_commit: H,
    r: Result<VerifiedExecutionPayload<F>, VmVerificationError<E::Error, U>>,
) -> bool {
    exists|b: Result<Boundary, VmVerificationError<E::Error, U>>|
        {
            &&& #[trigger] verdict_on(engine, vk, proofs, b)
            &&& match (b, r) {
                (Ok(b), Ok(payload)) => exists|v: VerifiedBoundary<F>|
                    {
                        &&& #[trigger] v.is_of(b)
                        &&& v.final_memory_root == payload.final_memory_root
                        &&& call_ensures(
                            compute_exe_commit,
                            (v.program_commit, v.initial_memory_root, v.start_pc),
                            payload.exe_commit,
                        )
                    },
                (Err(e), Err(f)) => e == f,
                _ => false,
            }
        }
}

/// Segments that are verified are accepted by the proof system, are sound by themselves, and go on
/// one where the other ended. The hash that is returned is that of the first commitment of every
/// segment, and of the memory root and the program counter that the first segment starts with; the
/// memory root that is returned is the one that the last segment ends with.
pub proof fn law_verified_segments<
    F: PrimeField32,
    E: ProofVerifier,
    U,
    H: Fn([F; CHUNK], [F; CHUNK], F) -> [F; CHUNK],
>(
    engine: E,
    vk: E::VerifyingKey,
    proofs: Seq<SegmentProof<F, E::Proof>>,
    compute_exe_commit: H,
    payload: VerifiedExecutionPayload<F>,
)
    requires
        verified_as(
            engine,
            vk,
            proofs,
            compute_exe_commit,
            Ok::<VerifiedExecutionPayload<F>, VmVerificationError<E::Error, U>>(payload),
        ),
        forall|i: int|
            0 <= i < proofs.len() ==> entries_distinct((#[trigger] proofs[i]).statement)
                && entries_complete(proofs[i].statement),
    ensures
        proofs.len() > 0,
        forall|i: int|
            0 <= i < proofs.len() ==> accepted_by(engine, vk, (#[trigger] proofs[i]).proof),
        all_sound(Seq::new(proofs.len(), |i: int| proofs[i].statement)),
        exists|program_commit: [F; CHUNK], initial_memory_root: [F; CHUNK], start_pc: F|
            {
                &&& #[trigger] call_ensures(
                    compute_exe_commit,
                    (program_commit, initial_memory_root, start_pc),
                    payload.exe_commit,
                )
                &&& spans(
                    Seq::new(proofs.len(), |i: int| proofs[i].statement),
                    program_commit,
                    initial_memory_root,
                    start_pc,
                    payload.final_memory_root,
                )
            },
{
    let b = choose|b: Result<Boundary, VmVerificationError<E::Error, U>>|
        {
            &&& #[trigger] verdict_on(engine, vk, proofs, b)
            &&& match b {
                Ok(b) => exists|v: VerifiedBoundary<F>|
                    {
                        &&& #[trigger] v.is_of(b)
                        &&& v.final_memory_root == payload.final_memory_root
                        &&& call_ensures(
                            compute_exe_commit,
                            (v.program_commit, v.initial_memory_root, v.start_pc),
                            payload.exe_commit,
                        )
                    },
                Err(_) => false,
            }
        };
    let v = choose|v: VerifiedBoundary<F>|
        {
            &&& #[trigger] v.is_of(b->Ok_0)
            &&& v.final_memory_root == payload.final_memory_root
            &&& call_ensures(
                compute_exe_commit,
                (v.program_commit, v.initial_memory_root, v.start_pc),
                payload.exe_commit,
            )
        };
    let (judged, k) = choose|judged: Seq<JudgedProof<F, E::Error>>, k: int|
        {
            &&& #[trigger] judges(engine, vk, proofs, judged, k)
            &&& 0 < k <= proofs.len()
            &&& b is Ok ==> k == proofs.len()
            &&& b == check_segments::<F, E::Error, U>(judged, k)
        };
    let statements = Seq::new(proofs.len(), |i: int| proofs[i].statement);
    assert forall|i: int| 0 <= i < judged.len() implies entries_distinct(
        (#[trigger] judged[i]).statement,
    ) && entries_complete(judged[i].statement) by {
        assert(judged[i].statement == proofs[i].statement);
    }
    law_accepted_exactly_if_sound::<F, E::Error, U>(judged);
    law_accepted_values::<F, E::Error, U>(judged, v);
    assert(statements_of(judged) =~= statements);
    assert forall|i: int| 0 <= i < proofs.len() implies accepted_by(
        engine,
        vk,
        (#[trigger] proofs[i]).proof,
    ) by {
        assert(says(engine, vk, proofs[i].proof, judged[i].stark));
    }
}

/// Why the proofs of the first segments up to segment `i` are refused.
pub open spec fn refused_at<F: PrimeField32, S, U>(
    proofs: Seq<JudgedProof<F, S>>,
    i: int,
    e: VmVerificationError<S, U>,
) -> bool {
    let last = i == proofs.len() - 1;
    let before = proofs[i - 1].statement;
    let statement = proofs[i].statement;
    match e {
        VmVerificationError::StarkError(error) => proofs[i].stark matches Err(s) && s == error,
        VmVerificationError::ProgramCommitMismatch { index } => {
            &&& index == i
            &&& i > 0
            &&& exists|c: int|
                0 <= c < 8 && #[trigger] first_commitment(statement, c) != first_commitment(
                    proofs[0].statement,
                    c,
                )
        },
        VmVerificationError::InitialPcMismatch { initial, prev_final } => {
            &&& i > 0
            &&& initial != prev_final
            &&& exists|j: int, k: int|
                {
                    &&& #[trigger] is_air(before, j, 1)
                    &&& #[trigger] is_air(statement, k, 1)
                    &&& public_value(statement, k, 0) == initial
                    &&& public_value(before, j, 1) == prev_final
                }
        },
        VmVerificationError::InitialMemoryRootMismatch => {
            &&& i > 0
            &&& exists|j: int, k: int, c: int|
                {
                    &&& is_air(before, j, 3)
                    &&& is_air(statement, k, 3)
                    &&& 0 <= c < 8
                    &&& #[trigger] public_value(statement, k, c) != #[trigger] public_value(
                        before,
                        j,
                        8 + c,
                    )
                }
        },
        VmVerificationError::IsTerminateMismatch { expected, actual } => {
            &&& expected == last
            &&& exists|k: int|
                {
                    &&& #[trigger] is_air(statement, k, 1)
                    &&& actual == (public_value(statement, k, 3) != 0)
                    &&& public_value(statement, k, 3) != (if last {
                        1int
                    } else {
                        0
                    })
                }
        },
        VmVerificationError::ExitCodeMismatch { expected, actual } => {
            &&& expected == (if last {
                0int
            } else {
                42
            })
            &&& actual != expected
            &&& exists|k: int| #[trigger]
                is_air(statement, k, 1) && public_value(statement, k, 2) == actual
        },
        VmVerificationError::UnexpectedPvs { expected, actual } => {
            &&& expected == 0
            &&& actual > 0
            &&& exists|k: int|
                {
                    &&& 0 <= k < statement.per_air@.len()
                    &&& !is_air(statement, k, 0) && !is_air(statement, k, 1) && !is_air(
                        statement,
                        k,
                        3,
                    )
                    &&& (#[trigger] statement.per_air@[k]).public_values@.len() == actual
                }
        },
        VmVerificationError::SystemAirMissing { air_id } => {
            &&& air_id == 0 || air_id == 1 || air_id == 3
            &&& forall|k: int| !#[trigger] is_air(statement, k, air_id as int)
        },
        VmVerificationError::ProofNotFound => false,
        VmVerificationError::UserPublicValuesError(_) => false,
    }
}

/// The first AIR that is refused.
proof fn lemma_first_refused<S, U>(
    i: int,
    last: bool,
    commit: Seq<int>,
    airs: Seq<crate::arch::vm::verify::AirVals>,
    n: int,
    b: Boundary,
) -> (k: int)
    requires
        0 <= n <= airs.len(),
        check_airs::<S, U>(i, last, commit, airs, n, b) is Err,
    ensures
        0 <= k < n,
        check_airs::<S, U>(i, last, commit, airs, k, b) is Ok,
        check_airs::<S, U>(i, last, commit, airs, n, b) == check_air::<S, U>(
            i,
            last,
            commit,
            airs[k],
            check_airs::<S, U>(i, last, commit, airs, k, b)->Ok_0,
        ),
    decreases n,
{
    if check_airs::<S, U>(i, last, commit, airs, n - 1, b) is Err {
        lemma_first_refused::<S, U>(i, last, commit, airs, n - 1, b)
    } else {
        n - 1
    }
}

/// The cause of the refusal of entry `k` of segment `i`.
proof fn lemma_refused_air<F: PrimeField32, S, U>(
    proofs: Seq<JudgedProof<F, S>>,
    i: int,
    k: int,
    c: Boundary,
    e: VmVerificationError<S, U>,
)
    requires
        0 <= i < proofs.len() <= usize::MAX,
        0 <= k < proofs[i].statement.per_air@.len(),
        forall|m: int|
            0 <= m < proofs.len() ==> entries_distinct((#[trigger] proofs[m]).statement) && (
            proofs[m].stark is Ok ==> entries_complete(proofs[m].statement)),
        proofs[i].stark is Ok,
        i > 0 ==> chain_good(proofs, i),
        i > 0 ==> segment_good(i - 1 == proofs.len() - 1, proofs[i - 1]),
        i > 0 ==> c.program_commit == Some(proofs[0].commit()),
        i > 0 && proofs[i].airs()[k].air_id == 1 ==> c.final_pc == Some(
            connector(proofs[i - 1].airs()).pvs[1],
        ),
        i > 0 && proofs[i].airs()[k].air_id == 3 ==> c.final_root == Some(
            final_root(merkle(proofs[i - 1].airs()).pvs),
        ),
        check_air::<S, U>(
            i,
            i == proofs.len() - 1,
            proofs[i].commit(),
            proofs[i].airs()[k],
            c,
        ) == Err::<Boundary, VmVerificationError<S, U>>(e),
    ensures
        refused_at(proofs, i, e),
{
    let proof = proofs[i];
    let statement = proof.statement;
    let air = proof.airs()[k];
    let before = proofs[i - 1];
    lemma_entry(proof, k);
    lemma_distinct(proof);
    F::order_is_prime();
    assert forall|m: int| 0 <= m < air.pvs.len() implies 0 <= #[trigger] air.pvs[m]
        <= u32::MAX by {
        statement.per_air@[k].public_values@[m].val_is_canonical();
    }
    if i > 0 {
        lemma_distinct(before);
    }
    if air.air_id == 0 {
        assert(is_air(statement, k, 0));
        lemma_commit(proof);
        assert(segment_good(0 == proofs.len() - 1, proofs[0]));
        lemma_distinct(proofs[0]);
        let p = choose|p: int| #[trigger] is_air(proofs[0].statement, p, 0);
        assert(is_air(proofs[0].statement, p, 0));
        lemma_commit(proofs[0]);
        if forall|m: int|
            0 <= m < 8 ==> #[trigger] first_commitment(statement, m) == first_commitment(
                proofs[0].statement,
                m,
            ) {
            assert(proof.commit() =~= proofs[0].commit()) by {
                assert forall|m: int| 0 <= m < 8 implies proof.commit()[m]
                    == proofs[0].commit()[m] by {
                    assert(first_commitment(statement, m) == first_commitment(
                        proofs[0].statement,
                        m,
                    ));
                }
            }
        }
    } else if air.air_id == 1 {
        assert(is_air(statement, k, 1));
        if i > 0 {
            let j = choose|j: int| #[trigger] is_air(before.statement, j, 1);
            assert(is_air(before.statement, j, 1));
            lemma_entry(before, j);
            assert(before.airs()[j].pvs[1] == public_value(before.statement, j, 1));
            before.statement.per_air@[j].public_values@[1].val_is_canonical();
        }
    } else if air.air_id == 3 {
        assert(is_air(statement, k, 3));
        let j = choose|j: int| #[trigger] is_air(before.statement, j, 3);
        assert(is_air(before.statement, j, 3));
        lemma_entry(before, j);
        let bm = before.airs()[j].pvs;
        if forall|m: int|
            0 <= m < 8 ==> #[trigger] public_value(statement, k, m) == public_value(
                before.statement,
                j,
                8 + m,
            ) {
            assert(initial_root(air.pvs) =~= final_root(bm)) by {
                assert forall|m: int| 0 <= m < 8 implies initial_root(air.pvs)[m] == final_root(
                    bm,
                )[m] by {
                    assert(public_value(statement, k, m) == public_value(
                        before.statement,
                        j,
                        8 + m,
                    ));
                }
            }
        }
        let m = choose|m: int|
            0 <= m < 8 && #[trigger] public_value(statement, k, m) != public_value(
                before.statement,
                j,
                8 + m,
            );
        assert(public_value(statement, k, m) != public_value(before.statement, j, 8 + m));
    } else {
        assert(statement.per_air@[k].public_values@.len()
            == statement.per_air@[k].public_values.len());
    }
}

/// The cause of the refusal of segment `i` after a good chain.
proof fn lemma_refused<F: PrimeField32, S, U>(
    proofs: Seq<JudgedProof<F, S>>,
    i: int,
    e: VmVerificationError<S, U>,
)
    requires
        0 <= i < proofs.len() <= usize::MAX,
        forall|m: int|
            0 <= m < proofs.len() ==> entries_distinct((#[trigger] proofs[m]).statement) && (
            proofs[m].stark is Ok ==> entries_complete(proofs[m].statement)),
        chain_good(proofs, i),
        check_segment::<F, S, U>(
            i,
            i == proofs.len() - 1,
            proofs[i],
            chain_boundary(proofs, i),
        ) == Err::<Boundary, VmVerificationError<S, U>>(e),
    ensures
        refused_at(proofs, i, e),
{
    let last = i == proofs.len() - 1;
    let proof = proofs[i];
    let statement = proof.statement;
    let b = chain_boundary(proofs, i);
    if proof.stark is Ok {
        let airs = proof.airs();
        let n = airs.len() as int;
        lemma_distinct(proof);
        if check_airs::<S, U>(i, last, proof.commit(), airs, n, b) is Err {
            let k = lemma_first_refused::<S, U>(i, last, proof.commit(), airs, n, b);
            let c = check_airs::<S, U>(i, last, proof.commit(), airs, k, b)->Ok_0;
            lemma_airs::<S, U>(i, last, proof.commit(), airs, k, b);
            lemma_entry(proof, k);
            let air = airs[k];
            assert forall|j: int| 0 <= j < k implies (#[trigger] airs[j]).air_id != air.air_id || !(
            is_system(air)) by {
                if airs[j].air_id == air.air_id && is_system(air) {
                    assert(is_system(airs[j]));
                }
            }
            if i > 0 {
                assert(segment_good(i - 1 == proofs.len() - 1, proofs[i - 1]));
            }
            lemma_refused_air(proofs, i, k, c, e);
        } else {
            assert(refused_at(proofs, i, e));
        }
    }
}

/// Proofs that are refused have a first segment that is to blame: all before it are sound, and the
/// error says what is wrong with it.
pub proof fn law_refused_for_a_cause<F: PrimeField32, S, U>(
    proofs: Seq<JudgedProof<F, S>>,
    n: int,
    e: VmVerificationError<S, U>,
) -> (i: int)
    requires
        0 <= n <= proofs.len() <= usize::MAX,
        forall|m: int|
            0 <= m < proofs.len() ==> entries_distinct((#[trigger] proofs[m]).statement) && (
            proofs[m].stark is Ok ==> entries_complete(proofs[m].statement)),
        check_segments::<F, S, U>(proofs, n) == Err::<Boundary, VmVerificationError<S, U>>(e),
    ensures
        0 <= i < n,
        check_segments::<F, S, U>(proofs, i) is Ok,
        refused_at(proofs, i, e),
    decreases n,
{
    if check_segments::<F, S, U>(proofs, n - 1) is Err {
        law_refused_for_a_cause(proofs, n - 1, e)
    } else {
        assert forall|i: int| 0 <= i < proofs.len() implies system_airs_distinct(
            (#[trigger] proofs[i]).airs(),
        ) by {
            lemma_distinct(proofs[i]);
        }
        lemma_chain::<F, S, U>(proofs, n - 1);
        lemma_refused(proofs, n - 1, e);
        n - 1
    }
}

} // verus!
