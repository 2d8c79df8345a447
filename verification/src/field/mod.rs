//! Prime fields whose order fits in 32 bits.
pub mod baby_bear;
pub mod laws;
pub mod number_theory;

use crate::field::number_theory::{
    fadd, finv, fmul, fsub, is_prime, lemma_red_small, red,
};
use vstd::prelude::*;

verus! {

/// A prime field with fewer than `2^32` elements.
///
/// Every element stands for its canonical value in `0..order`; the operations are those of the
/// integers modulo `order`.
pub trait PrimeField32: Copy {
    /// The number of elements.
    spec fn order() -> int;

    /// The canonical value of an element.
    spec fn val(self) -> int;

    /// The order is a prime that fits in 32 bits.
    proof fn order_is_prime()
        ensures
            is_prime(Self::order()),
            Self::order() <= u32::MAX,
    ;

    /// Canonical values lie in `0..order`.
    proof fn val_is_canonical(self)
        ensures
            0 <= self.val() < Self::order(),
    ;

    /// The order as a machine integer.
    fn order_u32() -> (n: u32)
        ensures
            n == Self::order(),
    ;

    /// The element with canonical value `n`.
    fn from_canonical_u32(n: u32) -> (r: Self)
        requires
            n < Self::order(),
        ensures
            r.val() == n,
    ;

    /// The canonical value.
    fn as_canonical_u32(self) -> (n: u32)
        ensures
            n == self.val(),
    ;

    fn add(self, other: Self) -> (r: Self)
        ensures
            r.val() == fadd(Self::order(), self.val(), other.val()),
    ;

    fn sub(self, other: Self) -> (r: Self)
        ensures
            r.val() == fsub(Self::order(), self.val(), other.val()),
    ;

    fn mul(self, other: Self) -> (r: Self)
        ensures
            r.val() == fmul(Self::order(), self.val(), other.val()),
    ;

    /// The multiplicative inverse of an element other than zero.
    fn inverse(self) -> (r: Self)
        requires
            self.val() != 0,
        ensures
            r.val() == finv(Self::order(), self.val()),
    ;

    /// Whether two elements are the same residue.
    fn equals(self, other: Self) -> (b: bool)
        ensures
            b == (self.val() == other.val()),
    {
        self.as_canonical_u32() == other.as_canonical_u32()
    }

    fn is_zero(self) -> (b: bool)
        ensures
            b == (self.val() == 0),
    {
        self.as_canonical_u32() == 0
    }

    fn zero() -> (r: Self)
        ensures
            r.val() == 0,
    {
        proof {
            Self::order_is_prime();
        }
        Self::from_canonical_u32(0)
    }

    fn one() -> (r: Self)
        ensures
            r.val() == 1,
    {
        proof {
            Self::order_is_prime();
        }
        Self::from_canonical_u32(1)
    }

    /// One plus one.
    fn two() -> (r: Self)
        ensures
            r.val() == red(2, Self::order()),
    {
        proof {
            reveal(fadd);
        }
        Self::one().add(Self::one())
    }

    /// Minus one.
    fn neg_one() -> (r: Self)
        ensures
            r.val() == red(-1, Self::order()),
    {
        proof {
            reveal(fsub);
        }
        Self::zero().sub(Self::one())
    }

    fn neg(self) -> (r: Self)
        ensures
            r.val() == red(-self.val(), Self::order()),
    {
        proof {
            reveal(fsub);
        }
        Self::zero().sub(self)
    }

    /// One for `true`, zero for `false`.
    fn from_bool(b: bool) -> (r: Self)
        ensures
            r.val() == (if b { 1int } else { 0int }),
    {
        if b {
            Self::one()
        } else {
            Self::zero()
        }
    }
}

/// Canonical values are their own residues, and the order is positive.
pub proof fn lemma_val_red<F: PrimeField32>(x: F)
    ensures
        0 <= x.val() < F::order(),
        x.val() == red(x.val(), F::order()),
{
    x.val_is_canonical();
    lemma_red_small(x.val(), F::order());
}

} // verus!
