//! What the entries of segments state, also where an AIR has several of them.
use crate::air::array_vals;
use crate::arch::vm::verify::{
    check_air, check_airs, check_segment, check_segments, final_root, has_air, initial_root,
    verify_boundaries, Boundary, JudgedProof, Statement, VerifiedBoundary, VmVerificationError,
};
use crate::arch::vm::verify_meaning::{
    entries_complete, first_commitment, is_air, public_value, statements_of,
};
use crate::field::PrimeField32;
use vstd::prelude::*;

verus! {

/// The last of the first `k` entries that is of the given AIR; minus one if there is none.
pub open spec fn latest_of<F: PrimeField32>(statement: Statement<F>, id: int, k: int) -> int
    decreases k,
{
    if k <= 0 {
        -1
    } else if is_air(statement, k - 1, id) {
        k - 1
    } else {
        latest_of(statement, id, k - 1)
    }
}

/// The last entry of a segment that is of the given AIR.
pub open spec fn last_of<F: PrimeField32>(statement: Statement<F>, id: int) -> int {
    latest_of(statement, id, statement.per_air@.len() as int)
}

/// The program counter at which the connector entry before entry `k` of a later segment ended. It
/// may stand in the same segment.
pub open spec fn pc_before<F: PrimeField32>(statements: Seq<Statement<F>>, i: int, k: int) -> int {
    let j = latest_of(statements[i], 1, k);
    if j >= 0 {
        public_value(statements[i], j, 1)
    } else {
        public_value(statements[i - 1], last_of(statements[i - 1], 1), 1)
    }
}

/// Element `c` of the root with which the memory tree entry before entry `k` of a later segment
/// ended. It may stand in the same segment.
pub open spec fn root_before<F: PrimeField32>(
    statements: Seq<Statement<F>>,
    i: int,
    k: int,
    c: int,
) -> int {
    let j = latest_of(statements[i], 3, k);
    if j >= 0 {
        public_value(statements[i], j, 8 + c)
    } else {
        public_value(statements[i - 1], last_of(statements[i - 1], 3), 8 + c)
    }
}

/// Entry `k` of segment `i` is sound. A program entry of a later segment has the commitment of the
/// first segment. A connector entry says whether the segment is the last one of `n`, with exit code 0
/// if it is and 42 if not, and in a later segment starts where the one before it ended. A memory tree
/// entry of a later segment starts with the root with which the one before it ended. Other entries
/// have no public values.
pub open spec fn entry_sound<F: PrimeField32>(
    statements: Seq<Statement<F>>,
    n: int,
    i: int,
    k: int,
) -> bool {
    let s = statements[i];
    &&& is_air(s, k, 0) && i > 0 ==> forall|c: int|
        0 <= c < 8 ==> #[trigger] first_commitment(s, c) == first_commitment(statements[0], c)
    &&& is_air(s, k, 1) ==> {
        &&& public_value(s, k, 3) == (if i == n - 1 {
            1int
        } else {
            0
        })
        &&& public_value(s, k, 2) == (if i == n - 1 {
            0int
        } else {
            42
        })
        &&& i > 0 ==> public_value(s, k, 0) == pc_before(statements, i, k)
    }
    &&& is_air(s, k, 3) && i > 0 ==> forall|c: int|
        0 <= c < 8 ==> #[trigger] public_value(s, k, c) == root_before(statements, i, k, c)
    &&& !is_air(s, k, 0) && !is_air(s, k, 1) && !is_air(s, k, 3)
        ==> s.per_air@[k].public_values@.len() == 0
}

/// Segment `i` has the program, the connector and the memory tree, and all its entries are sound.
pub open spec fn segment_sound<F: PrimeField32>(
    statements: Seq<Statement<F>>,
    n: int,
    i: int,
) -> bool {
    &&& last_of(statements[i], 0) >= 0
    &&& last_of(statements[i], 1) >= 0
    &&& last_of(statements[i], 3) >= 0
    &&& forall|k: int|
        0 <= k < statements[i].per_air@.len() ==> #[trigger] entry_sound(statements, n, i, k)
}

proof fn lemma_latest<F: PrimeField32>(statement: Statement<F>, id: usize, k: int)
    requires
        0 <= k <= statement.per_air@.len(),
    ensures
        -1 <= latest_of(statement, id as int, k) < k,
        latest_of(statement, id as int, k) >= 0 ==> is_air(
            statement,
            latest_of(statement, id as int, k),
            id as int,
        ),
        latest_of(statement, id as int, k) >= 0 <==> has_air(statement.airs().take(k), id),
    decreases k,
{
    let airs = statement.airs();
    if k > 0 {
        lemma_latest(statement, id, k - 1);
        let (s, t) = (airs.take(k), airs.take(k - 1));
        assert(s[k - 1].air_id == statement.per_air@[k - 1].air_id);
        if has_air(s, id) && !is_air(statement, k - 1, id as int) {
            let j = choose|j: int| 0 <= j < s.len() && (#[trigger] s[j]).air_id == id;
            assert(t[j].air_id == id);
        }
        if has_air(t, id) {
            let j = choose|j: int| 0 <= j < t.len() && (#[trigger] t[j]).air_id == id;
            assert(s[j].air_id == id);
        }
        if is_air(statement, k - 1, id as int) {
            assert(s[k - 1].air_id == id);
        }
    }
}

/// The public values of entry `k`.
spec fn pvs_of<F: PrimeField32>(statement: Statement<F>, k: int) -> Seq<int> {
    statement.airs()[k].pvs
}

/// Entry `k` passes its check, where `b` was carried into the segment.
spec fn passes<F: PrimeField32>(
    i: int,
    last: bool,
    statement: Statement<F>,
    b: Boundary,
    k: int,
) -> bool {
    let pvs = pvs_of(statement, k);
    let connector = latest_of(statement, 1, k);
    let merkle = latest_of(statement, 3, k);
    if is_air(statement, k, 0) {
        i == 0 || b.program_commit == Some(statement.commit())
    } else if is_air(statement, k, 1) {
        &&& i == 0 || (if connector >= 0 {
            Some(pvs_of(statement, connector)[1])
        } else {
            b.final_pc
        }) == Some(pvs[0])
        &&& pvs[3] == (if last {
            1int
        } else {
            0
        })
        &&& pvs[2] == (if last {
            0int
        } else {
            42
        })
    } else if is_air(statement, k, 3) {
        i == 0 || (if merkle >= 0 {
            Some(final_root(pvs_of(statement, merkle)))
        } else {
            b.final_root
        }) == Some(initial_root(pvs))
    } else {
        pvs.len() == 0
    }
}

/// What the first `k` entries carry on, where `b` was carried into the segment.
spec fn carries<F: PrimeField32>(i: int, statement: Statement<F>, b: Boundary, k: int) -> Boundary {
    let program = latest_of(statement, 0, k);
    let connector = latest_of(statement, 1, k);
    let merkle = latest_of(statement, 3, k);
    Boundary {
        program_commit: if i == 0 && program >= 0 {
            Some(statement.commit())
        } else {
            b.program_commit
        },
        start_pc: if i == 0 && connector >= 0 {
            Some(pvs_of(statement, connector)[0])
        } else {
            b.start_pc
        },
        initial_root: if i == 0 && merkle >= 0 {
            Some(initial_root(pvs_of(statement, merkle)))
        } else {
            b.initial_root
        },
        final_pc: if connector >= 0 {
            Some(pvs_of(statement, connector)[1])
        } else {
            b.final_pc
        },
        final_root: if merkle >= 0 {
            Some(final_root(pvs_of(statement, merkle)))
        } else {
            b.final_root
        },
    }
}

proof fn lemma_entries<F: PrimeField32, S, U>(
    i: int,
    last: bool,
    statement: Statement<F>,
    b: Boundary,
    k: int,
)
    requires
        0 <= k <= statement.per_air@.len(),
    ensures
        check_airs::<S, U>(i, last, statement.commit(), statement.airs(), k, b) is Ok <==> forall|
            j: int,
        |
            0 <= j < k ==> #[trigger] passes(i, last, statement, b, j),
        check_airs::<S, U>(i, last, statement.commit(), statement.airs(), k, b) matches Ok(c) ==> c
            == carries(i, statement, b, k),
    decreases k,
{
    let commit = statement.commit();
    let airs = statement.airs();
    if k > 0 {
        lemma_entries::<F, S, U>(i, last, statement, b, k - 1);
        lemma_latest(statement, 0, k - 1);
        lemma_latest(statement, 1, k - 1);
        lemma_latest(statement, 3, k - 1);
        let before = check_airs::<S, U>(i, last, commit, airs, k - 1, b);
        let after = check_airs::<S, U>(i, last, commit, airs, k, b);
        assert(airs[k - 1].air_id == statement.per_air@[k - 1].air_id);
        if before is Ok {
            let c = before->Ok_0;
            assert(after == check_air::<S, U>(i, last, commit, airs[k - 1], c));
            assert(after is Ok <==> passes(i, last, statement, b, k - 1));
            if after is Ok {
                assert(after->Ok_0 == carries(i, statement, b, k));
            }
        } else {
            let j = choose|j: int| 0 <= j < k - 1 && !(#[trigger] passes(i, last, statement, b, j));
            assert(!passes(i, last, statement, b, j));
        }
    }
}

/// What `n` segments carry on.
spec fn carried_after<F: PrimeField32, S>(proofs: Seq<JudgedProof<F, S>>, n: int) -> Boundary {
    let first = proofs[0].statement;
    let last = proofs[n - 1].statement;
    if n <= 0 {
        Boundary::empty()
    } else {
        Boundary {
            program_commit: Some(first.commit()),
            start_pc: Some(pvs_of(first, last_of(first, 1))[0]),
            initial_root: Some(initial_root(pvs_of(first, last_of(first, 3)))),
            final_pc: Some(pvs_of(last, last_of(last, 1))[1]),
            final_root: Some(final_root(pvs_of(last, last_of(last, 3)))),
        }
    }
}

proof fn lemma_segment<F: PrimeField32, S, U>(proofs: Seq<JudgedProof<F, S>>, i: int)
    requires
        0 <= i < proofs.len(),
        proofs[i].stark is Ok,
        entries_complete(proofs[i].statement),
        i > 0 ==> entries_complete(proofs[i - 1].statement) && entries_complete(
            proofs[0].statement,
        ),
        i > 0 ==> last_of(proofs[0].statement, 0) >= 0,
        i > 0 ==> last_of(proofs[i - 1].statement, 1) >= 0 && last_of(
            proofs[i - 1].statement,
            3,
        ) >= 0,
    ensures
        check_segment::<F, S, U>(i, i == proofs.len() - 1, proofs[i], carried_after(proofs, i)) is Ok
            <==> segment_sound(statements_of(proofs), proofs.len() as int, i),
        check_segment::<F, S, U>(
            i,
            i == proofs.len() - 1,
            proofs[i],
            carried_after(proofs, i),
        ) matches Ok(c) ==> c == carried_after(proofs, i + 1),
{
    let statements = statements_of(proofs);
    let s = proofs[i].statement;
    let n = s.per_air@.len() as int;
    let last = i == proofs.len() - 1;
    let b = carried_after(proofs, i);
    assert(statements[i] == s);
    lemma_entries::<F, S, U>(i, last, s, b, n);
    lemma_latest(s, 0, n);
    lemma_latest(s, 1, n);
    lemma_latest(s, 3, n);
    assert(s.airs().take(n) =~= s.airs());
    assert forall|k: int| 0 <= k < n implies (#[trigger] passes(i, last, s, b, k)
        <==> entry_sound(statements, proofs.len() as int, i, k)) by {
        lemma_passes(proofs, i, k);
    }
    let checked = check_airs::<S, U>(i, last, s.commit(), s.airs(), n, b);
    if checked is Ok {
        assert forall|k: int| 0 <= k < n implies #[trigger] entry_sound(
            statements,
            proofs.len() as int,
            i,
            k,
        ) by {
            assert(passes(i, last, s, b, k));
        }
    } else {
        let k = choose|k: int| 0 <= k < n && !(#[trigger] passes(i, last, s, b, k));
        assert(!entry_sound(statements, proofs.len() as int, i, k));
    }
}

proof fn lemma_passes<F: PrimeField32, S>(proofs: Seq<JudgedProof<F, S>>, i: int, k: int)
    requires
        0 <= i < proofs.len(),
        entries_complete(proofs[i].statement),
        i > 0 ==> entries_complete(proofs[i - 1].statement) && entries_complete(
            proofs[0].statement,
        ),
        i > 0 ==> last_of(proofs[0].statement, 0) >= 0,
        i > 0 ==> last_of(proofs[i - 1].statement, 1) >= 0 && last_of(
            proofs[i - 1].statement,
            3,
        ) >= 0,
        0 <= k < proofs[i].statement.per_air@.len(),
    ensures
        passes(i, i == proofs.len() - 1, proofs[i].statement, carried_after(proofs, i), k)
            <==> entry_sound(statements_of(proofs), proofs.len() as int, i, k),
{
    let statements = statements_of(proofs);
    let s = proofs[i].statement;
    let b = carried_after(proofs, i);
    assert(statements[i] == s);
    assert(s.airs()[k].air_id == s.per_air@[k].air_id);
    if is_air(s, k, 0) {
        if i > 0 {
            let f = proofs[0].statement;
            assert(statements[0] == f);
            lemma_latest(f, 0, f.per_air@.len() as int);
            assert(is_air(f, last_of(f, 0), 0));
            assert forall|c: int| 0 <= c < 8 implies {
                &&& #[trigger] s.commit()[c] == first_commitment(s, c)
                &&& f.commit()[c] == first_commitment(f, c)
            } by {}
            if s.commit() == f.commit() {
                assert forall|c: int| 0 <= c < 8 implies #[trigger] first_commitment(s, c)
                    == first_commitment(f, c) by {
                    assert(s.commit()[c] == f.commit()[c]);
                }
            }
            if forall|c: int|
                0 <= c < 8 ==> #[trigger] first_commitment(s, c) == first_commitment(f, c) {
                assert forall|c: int| 0 <= c < 8 implies #[trigger] s.commit()[c]
                    == f.commit()[c] by {
                    assert(first_commitment(s, c) == first_commitment(f, c));
                }
                assert(s.commit() =~= f.commit());
            }
        }
    } else if is_air(s, k, 1) {
        lemma_values(s, k, 1);
        lemma_latest(s, 1, k);
        let j = latest_of(s, 1, k);
        if j >= 0 {
            lemma_values(s, j, 1);
        } else if i > 0 {
            let p = proofs[i - 1].statement;
            assert(statements[i - 1] == p);
            lemma_latest(p, 1, p.per_air@.len() as int);
            lemma_values(p, last_of(p, 1), 1);
        }
    } else if is_air(s, k, 3) {
        lemma_values(s, k, 3);
        lemma_latest(s, 3, k);
        let j = latest_of(s, 3, k);
        if i > 0 {
            let p = proofs[i - 1].statement;
            assert(statements[i - 1] == p);
            lemma_latest(p, 3, p.per_air@.len() as int);
            let (from, at) = if j >= 0 {
                (s, j)
            } else {
                (p, last_of(p, 3))
            };
            lemma_values(from, at, 3);
            let x = initial_root(pvs_of(s, k));
            let y = final_root(pvs_of(from, at));
            assert forall|c: int| 0 <= c < 8 implies {
                &&& #[trigger] x[c] == public_value(s, k, c)
                &&& y[c] == root_before(statements, i, k, c)
            } by {
                assert(x[c] == pvs_of(s, k)[c]);
                assert(y[c] == pvs_of(from, at)[8 + c]);
            }
            if x == y {
                assert forall|c: int| 0 <= c < 8 implies #[trigger] public_value(s, k, c)
                    == root_before(statements, i, k, c) by {
                    assert(x[c] == y[c]);
                }
            }
            if forall|c: int|
                0 <= c < 8 ==> #[trigger] public_value(s, k, c) == root_before(
                    statements,
                    i,
                    k,
                    c,
                ) {
                assert forall|c: int| 0 <= c < 8 implies #[trigger] x[c] == y[c] by {
                    assert(public_value(s, k, c) == root_before(statements, i, k, c));
                }
                assert(x =~= y);
            }
        }
    }
}

proof fn lemma_values<F: PrimeField32>(s: Statement<F>, k: int, id: int)
    requires
        is_air(s, k, id),
        id == 1 || id == 3,
        entries_complete(s),
    ensures
        pvs_of(s, k).len() == (if id == 1 {
            4int
        } else {
            16
        }),
        forall|c: int|
            0 <= c < pvs_of(s, k).len() ==> #[trigger] pvs_of(s, k)[c] == public_value(s, k, c),
{
}

/// The proofs of the first segments are accepted exactly if the proof system accepts each and all
/// their entries are sound, also where an AIR has several entries.
pub proof fn law_accepted_by_entries<F: PrimeField32, S, U>(proofs: Seq<JudgedProof<F, S>>, n: int)
    requires
        0 <= n <= proofs.len(),
        forall|i: int|
            0 <= i < proofs.len() && (#[trigger] proofs[i]).stark is Ok ==> entries_complete(
                proofs[i].statement,
            ),
    ensures
        check_segments::<F, S, U>(proofs, n) is Ok <==> forall|i: int|
            0 <= i < n ==> (#[trigger] proofs[i]).stark is Ok && segment_sound(
                statements_of(proofs),
                proofs.len() as int,
                i,
            ),
{
    lemma_carried::<F, S, U>(proofs, n);
}

proof fn lemma_carried<F: PrimeField32, S, U>(proofs: Seq<JudgedProof<F, S>>, n: int)
    requires
        0 <= n <= proofs.len(),
        forall|i: int|
            0 <= i < proofs.len() && (#[trigger] proofs[i]).stark is Ok ==> entries_complete(
                proofs[i].statement,
            ),
    ensures
        check_segments::<F, S, U>(proofs, n) is Ok <==> forall|i: int|
            0 <= i < n ==> (#[trigger] proofs[i]).stark is Ok && segment_sound(
                statements_of(proofs),
                proofs.len() as int,
                i,
            ),
        check_segments::<F, S, U>(proofs, n) matches Ok(c) ==> c == carried_after(proofs, n),
    decreases n,
{
    let statements = statements_of(proofs);
    let total = proofs.len() as int;
    if n > 0 {
        lemma_carried::<F, S, U>(proofs, n - 1);
        let before = check_segments::<F, S, U>(proofs, n - 1);
        if before is Ok {
            if proofs[n - 1].stark is Ok {
                if n > 1 {
                    assert(proofs[0].stark is Ok && segment_sound(statements, total, 0));
                    assert(proofs[n - 2].stark is Ok && segment_sound(statements, total, n - 2));
                    assert(statements[0] == proofs[0].statement);
                    assert(statements[n - 2] == proofs[n - 2].statement);
                }
                lemma_segment::<F, S, U>(proofs, n - 1);
            } else {
                assert(!(proofs[n - 1].stark is Ok));
            }
        } else {
            let i = choose|i: int|
                0 <= i < n - 1 && !((#[trigger] proofs[i]).stark is Ok && segment_sound(
                    statements,
                    total,
                    i,
                ));
            assert(!(proofs[i].stark is Ok && segment_sound(statements, total, i)));
        }
    }
}

/// The values that accepted proofs give are those of the last entries: the start of the last
/// connector entry and the first root of the last memory tree entry of the first segment, and the
/// final root of the last memory tree entry of the last segment.
pub proof fn law_values_by_entries<F: PrimeField32, S, U>(
    proofs: Seq<JudgedProof<F, S>>,
    v: VerifiedBoundary<F>,
)
    requires
        proofs.len() > 0,
        forall|i: int|
            0 <= i < proofs.len() && (#[trigger] proofs[i]).stark is Ok ==> entries_complete(
                proofs[i].statement,
            ),
        check_segments::<F, S, U>(proofs, proofs.len() as int) matches Ok(b) && v.is_of(b),
    ensures
        ({
            let first = proofs[0].statement;
            let last = proofs[proofs.len() - 1].statement;
            &&& forall|c: int|
                0 <= c < 8 ==> v.program_commit@[c].val() == #[trigger] first_commitment(first, c)
            &&& v.start_pc.val() == public_value(first, last_of(first, 1), 0)
            &&& forall|c: int|
                0 <= c < 8 ==> (#[trigger] v.initial_memory_root@[c]).val() == public_value(
                    first,
                    last_of(first, 3),
                    c,
                )
            &&& forall|c: int|
                0 <= c < 8 ==> (#[trigger] v.final_memory_root@[c]).val() == public_value(
                    last,
                    last_of(last, 3),
                    8 + c,
                )
        }),
{
    let n = proofs.len() as int;
    let statements = statements_of(proofs);
    lemma_carried::<F, S, U>(proofs, n);
    let first = proofs[0].statement;
    let last = proofs[n - 1].statement;
    assert(proofs[0].stark is Ok && segment_sound(statements, n, 0));
    assert(proofs[n - 1].stark is Ok && segment_sound(statements, n, n - 1));
    assert(statements[0] == first && statements[n - 1] == last);
    lemma_latest(first, 0, first.per_air@.len() as int);
    lemma_latest(first, 1, first.per_air@.len() as int);
    lemma_latest(first, 3, first.per_air@.len() as int);
    lemma_latest(last, 3, last.per_air@.len() as int);
    assert(is_air(first, last_of(first, 0), 0));
    lemma_values(first, last_of(first, 1), 1);
    lemma_values(first, last_of(first, 3), 3);
    lemma_values(last, last_of(last, 3), 3);
    let b = carried_after(proofs, n);
    assert forall|c: int| 0 <= c < 8 implies v.program_commit@[c].val()
        == #[trigger] first_commitment(first, c) by {
        assert(array_vals(v.program_commit)[c] == v.program_commit@[c].val());
        assert(first.commit()[c] == first_commitment(first, c));
    }
    assert forall|c: int| 0 <= c < 8 implies (#[trigger] v.initial_memory_root@[c]).val()
        == public_value(first, last_of(first, 3), c) by {
        assert(array_vals(v.initial_memory_root)[c] == v.initial_memory_root@[c].val());
        assert(initial_root(pvs_of(first, last_of(first, 3)))[c] == pvs_of(
            first,
            last_of(first, 3),
        )[c]);
    }
    assert forall|c: int| 0 <= c < 8 implies (#[trigger] v.final_memory_root@[c]).val()
        == public_value(last, last_of(last, 3), 8 + c) by {
        assert(array_vals(v.final_memory_root)[c] == v.final_memory_root@[c].val());
        assert(final_root(pvs_of(last, last_of(last, 3)))[c] == pvs_of(last, last_of(last, 3))[8
            + c]);
    }
}

/// Judged proofs pass exactly if there are some, the proof system accepts each, and all their entries
/// are sound.
pub proof fn law_boundaries_by_entries<F: PrimeField32, S, U>(
    proofs: Vec<JudgedProof<F, S>>,
    r: Result<VerifiedBoundary<F>, VmVerificationError<S, U>>,
)
    requires
        forall|i: int|
            0 <= i < proofs@.len() && (#[trigger] proofs@[i]).stark is Ok ==> entries_complete(
                proofs@[i].statement,
            ),
        call_ensures(verify_boundaries::<F, S, U>, (proofs,), r),
    ensures
        r is Ok <==> proofs@.len() > 0 && forall|i: int|
            0 <= i < proofs@.len() ==> (#[trigger] proofs@[i]).stark is Ok && segment_sound(
                statements_of(proofs@),
                proofs@.len() as int,
                i,
            ),
{
    law_accepted_by_entries::<F, S, U>(proofs@, proofs@.len() as int);
}

} // verus!
