//! What a branch row tells, and where a branch goes.
use crate::field::number_theory::{
    finv, is_prime, lemma_inverse, lemma_red_mul, lemma_red_range, lemma_red_shift, lemma_red_small,
    lemma_red_zero_small, red,
};
use crate::native::branch_eq::chip::branch_taken;
use crate::native::branch_eq::execute::signed_residue;
use vstd::prelude::*;

verus! {

/// The inverse of the difference that a row holds is a witness: its product with the difference
/// is one if the operands differ, and zero if they are equal.
pub proof fn law_difference_witness(x: int, y: int, p: int)
    requires
        is_prime(p),
        0 <= x < p,
        0 <= y < p,
    ensures
        x != y ==> red((x - y) * finv(p, red(x - y, p)), p) == 1,
        x == y ==> red((x - y) * 0, p) == 0,
{
    lemma_red_small(0, p);
    if x != y {
        let d = red(x - y, p);
        lemma_red_range(x - y, p);
        if d == 0 {
            lemma_red_zero_small(x - y, p);
        }
        lemma_red_small(d, p);
        lemma_inverse(p, d);
        let inv = finv(p, d);
        lemma_red_mul(x - y, inv, p);
        lemma_red_mul(d, inv, p);
    }
}

/// A branch on inequality is taken exactly when the branch on equality is not.
pub proof fn law_branches_complement(x: int, y: int)
    ensures
        branch_taken(true, x, y) == !branch_taken(false, x, y),
        branch_taken(true, x, y) == (x == y),
{
}

/// Execution and trace generation agree on where a branch goes, as long as it stays within the
/// values that the field can hold: the signed distance on machine words, and the residue added in
/// the field.
pub proof fn law_branch_modes_agree(pc: u32, imm: int, p: int)
    requires
        is_prime(p),
        p <= u32::MAX,
        0 <= imm < p,
        0 <= pc + signed_residue(imm, p) < p,
    ensures
        (pc + signed_residue(imm, p)) % 0x1_0000_0000 == red(pc + imm, p),
{
    let t = pc + signed_residue(imm, p);
    lemma_red_small(t, p);
    lemma_red_shift(t, 1, p);
}

} // verus!
