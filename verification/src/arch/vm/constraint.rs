//! Constraints on trace heights.
use openvm_stark_backend::keygen::types::LinearConstraint;
use vstd::prelude::*;

verus! {

#[verifier::external_type_specification]
#[verifier::external_body]
pub struct ExLinearConstraint(LinearConstraint);

/// `<LinearConstraint as Clone>::clone` of the proof system copies the coefficients and the
/// threshold: the copy is the same constraint.
pub assume_specification[ <LinearConstraint as Clone>::clone ](constraint: &LinearConstraint) -> (r:
    LinearConstraint)
    ensures
        r == *constraint,
;

/// The same constraints again.
pub fn copy_constraints(constraints: &Vec<LinearConstraint>) -> (r: Vec<LinearConstraint>)
    ensures
        r@ == constraints@,
{
    let mut r: Vec<LinearConstraint> = Vec::new();
    for i in 0..constraints.len()
        invariant
            r@ == constraints@.take(i as int),
    {
        r.push(constraints[i].clone());
        assert(r@ =~= constraints@.take(i + 1));
    }
    assert(r@ =~= constraints@);
    r
}

} // verus!
