//! The operations of a field, as congruences of integers.
use crate::field::baby_bear::BabyBear;
use crate::field::number_theory::{
    fadd, finv, fmul, fsub, is_inverse, lemma_inverse, lemma_red_small, red,
};
use crate::field::PrimeField32;
use vstd::arithmetic::div_mod::*;
use vstd::prelude::*;

verus! {

proof fn lemma_residue(x: int, p: int)
    requires
        p > 0,
    ensures
        0 <= red(x, p) < p,
        (red(x, p) - x) % p == 0,
        (x - red(x, p)) % p == 0,
{
    reveal(red);
    lemma_mod_bound(x, p);
    lemma_fundamental_div_mod(x, p);
    let k = x / p;
    assert(x % p - x == p * (-k)) by (nonlinear_arith)
        requires
            x == p * k + x % p,
    ;
    assert(x - x % p == p * k);
    lemma_mod_multiples_basic(-k, p);
    lemma_mod_multiples_basic(k, p);
    vstd::arithmetic::mul::lemma_mul_is_commutative(p, k);
    vstd::arithmetic::mul::lemma_mul_is_commutative(p, -k);
}

/// A sum is congruent to the sum of the canonical values.
pub proof fn law_sum<F: PrimeField32>(x: F, y: F, r: F)
    requires
        call_ensures(F::add, (x, y), r),
    ensures
        0 <= r.val() < F::order(),
        (r.val() - (x.val() + y.val())) % F::order() == 0,
{
    F::order_is_prime();
    reveal(fadd);
    lemma_residue(x.val() + y.val(), F::order());
}

/// A difference is congruent to the difference of the canonical values.
pub proof fn law_difference<F: PrimeField32>(x: F, y: F, r: F)
    requires
        call_ensures(F::sub, (x, y), r),
    ensures
        0 <= r.val() < F::order(),
        (r.val() - (x.val() - y.val())) % F::order() == 0,
{
    F::order_is_prime();
    reveal(fsub);
    lemma_residue(x.val() - y.val(), F::order());
}

/// A product is congruent to the product of the canonical values.
pub proof fn law_product<F: PrimeField32>(x: F, y: F, r: F)
    requires
        call_ensures(F::mul, (x, y), r),
    ensures
        0 <= r.val() < F::order(),
        (r.val() - x.val() * y.val()) % F::order() == 0,
{
    F::order_is_prime();
    reveal(fmul);
    lemma_residue(x.val() * y.val(), F::order());
}

/// An element times its inverse is congruent to one.
pub proof fn law_reciprocal<F: PrimeField32>(x: F, r: F)
    requires
        x.val() != 0,
        call_ensures(F::inverse, (x,), r),
    ensures
        0 < r.val() < F::order(),
        (x.val() * r.val() - 1) % F::order() == 0,
{
    F::order_is_prime();
    x.val_is_canonical();
    lemma_red_small(x.val(), F::order());
    lemma_inverse(F::order(), x.val());
    assert(is_inverse(F::order(), x.val(), finv(F::order(), x.val())));
    lemma_residue(x.val() * r.val(), F::order());
    if r.val() == 0 {
        assert(x.val() * r.val() == 0);
        lemma_red_small(0, F::order());
    }
}

/// An element and its negative sum to a multiple of the order.
pub proof fn law_negative<F: PrimeField32>(x: F, r: F)
    requires
        call_ensures(F::neg, (x,), r),
    ensures
        0 <= r.val() < F::order(),
        (r.val() + x.val()) % F::order() == 0,
{
    F::order_is_prime();
    lemma_residue(-x.val(), F::order());
}

/// The constants zero, one, two and minus one. In a field of two elements two is zero.
pub proof fn law_constants<F: PrimeField32>(zero: F, one: F, two: F, neg_one: F)
    requires
        call_ensures(F::zero, (), zero),
        call_ensures(F::one, (), one),
        call_ensures(F::two, (), two),
        call_ensures(F::neg_one, (), neg_one),
    ensures
        zero.val() == 0,
        one.val() == 1,
        F::order() > 2 ==> two.val() == 2,
        neg_one.val() == F::order() - 1,
{
    F::order_is_prime();
    if F::order() > 2 {
        lemma_red_small(2, F::order());
    }
    lemma_residue(-1, F::order());
    assert(neg_one.val() == F::order() - 1) by {
        reveal(red);
        lemma_fundamental_div_mod_converse(-1, F::order(), -1, F::order() - 1);
    }
}

/// Numbers below the order and elements stand for each other.
pub proof fn law_canonical_round_trip<F: PrimeField32>(n: u32, x: F, m: u32)
    requires
        n < F::order(),
        call_ensures(F::from_canonical_u32, (n,), x),
        call_ensures(F::as_canonical_u32, (x,), m),
    ensures
        m == n,
        m < F::order(),
{
}

/// Elements are equal if their canonical values are, zero is the element with value zero, and truth
/// values become zero and one.
pub proof fn law_tests<F: PrimeField32>(x: F, y: F, same: bool, zero: bool, b: bool, bit: F)
    requires
        call_ensures(F::equals, (x, y), same),
        call_ensures(F::is_zero, (x,), zero),
        call_ensures(F::from_bool, (b,), bit),
    ensures
        same <==> x.val() == y.val(),
        zero <==> x.val() == 0,
        b ==> bit.val() == 1,
        !b ==> bit.val() == 0,
{
}

/// The field has `2^31 - 2^27 + 1` elements.
pub proof fn law_baby_bear_order(n: u32)
    requires
        call_ensures(<BabyBear as PrimeField32>::order_u32, (), n),
    ensures
        n == 0x8000_0000 - 0x800_0000 + 1,
        <BabyBear as PrimeField32>::order() == n,
{
}

} // verus!
