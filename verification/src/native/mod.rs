//! Instructions on field elements.
pub mod branch_eq;
pub mod field_arithmetic;

use crate::field::PrimeField32;
use vstd::prelude::*;

verus! {

/// The word that stands for an element in pre-computed data.
pub fn transmute_field_to_u32<F: PrimeField32>(x: &F) -> (r: u32)
    ensures
        r == x.val(),
        r < F::order(),
{
    proof {
        x.val_is_canonical();
    }
    x.as_canonical_u32()
}

/// The element that a word stands for; it undoes [`transmute_field_to_u32`].
pub fn transmute_u32_to_field<F: PrimeField32>(x: &u32) -> (r: F)
    requires
        *x < F::order(),
    ensures
        r.val() == *x,
{
    F::from_canonical_u32(*x)
}

} // verus!
