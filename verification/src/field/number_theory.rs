//! Residues modulo a prime: reduction, Euclid's lemma and inverses.
use vstd::arithmetic::div_mod::*;
use vstd::arithmetic::mul::*;
use vstd::prelude::*;

verus! {

/// `d` divides `n`.
pub open spec fn divides(d: int, n: int) -> bool {
    n % d == 0
}

/// `n` has no divisor strictly between 1 and itself.
pub open spec fn is_prime(n: int) -> bool {
    n > 1 && forall|d: int| 1 < d < n ==> !#[trigger] divides(d, n)
}

/// `x` reduced to its representative in `0..p`.
#[verifier::opaque]
pub open spec fn red(x: int, p: int) -> int {
    x % p
}

/// Addition modulo `p`.
#[verifier::opaque]
pub open spec fn fadd(p: int, a: int, b: int) -> int {
    red(a + b, p)
}

/// Subtraction modulo `p`.
#[verifier::opaque]
pub open spec fn fsub(p: int, a: int, b: int) -> int {
    red(a - b, p)
}

/// Multiplication modulo `p`.
#[verifier::opaque]
pub open spec fn fmul(p: int, a: int, b: int) -> int {
    red(a * b, p)
}

/// `x` is a representative in `0..p` of the inverse of `a`.
pub open spec fn is_inverse(p: int, a: int, x: int) -> bool {
    0 <= x < p && red(a * x, p) == 1
}

/// The inverse of `a` modulo `p`.
pub open spec fn finv(p: int, a: int) -> int {
    choose|x: int| is_inverse(p, a, x)
}

pub proof fn lemma_red_range(x: int, p: int)
    requires
        p > 0,
    ensures
        0 <= #[trigger] red(x, p) < p,
{
    reveal(red);
    lemma_mod_bound(x, p);
}

pub proof fn lemma_red_small(x: int, p: int)
    requires
        0 <= x < p,
    ensures
        red(x, p) == x,
{
    reveal(red);
    lemma_small_mod(x as nat, p as nat);
}

pub proof fn lemma_red_add(x: int, y: int, p: int)
    requires
        p > 0,
    ensures
        red(red(x, p) + red(y, p), p) == red(x + y, p),
{
    reveal(red);
    lemma_add_mod_noop(x, y, p);
}

pub proof fn lemma_red_sub(x: int, y: int, p: int)
    requires
        p > 0,
    ensures
        red(red(x, p) - red(y, p), p) == red(x - y, p),
{
    reveal(red);
    lemma_sub_mod_noop(x, y, p);
}

pub proof fn lemma_red_mul(x: int, y: int, p: int)
    requires
        p > 0,
    ensures
        red(red(x, p) * red(y, p), p) == red(x * y, p),
{
    reveal(red);
    lemma_mul_mod_noop(x, y, p);
}

/// The sum of two residues is the residue of the sum.
pub proof fn lemma_fadd_red(x: int, y: int, p: int)
    requires
        p > 0,
    ensures
        fadd(p, red(x, p), red(y, p)) == red(x + y, p),
{
    reveal(fadd);
    lemma_red_add(x, y, p);
}

/// The difference of two residues is the residue of the difference.
pub proof fn lemma_fsub_red(x: int, y: int, p: int)
    requires
        p > 0,
    ensures
        fsub(p, red(x, p), red(y, p)) == red(x - y, p),
{
    reveal(fsub);
    lemma_red_sub(x, y, p);
}

/// The product of two residues is the residue of the product.
pub proof fn lemma_fmul_red(x: int, y: int, p: int)
    requires
        p > 0,
    ensures
        fmul(p, red(x, p), red(y, p)) == red(x * y, p),
{
    reveal(fmul);
    lemma_red_mul(x, y, p);
}

/// Two integers have the same residue exactly when `p` divides their difference.
pub proof fn lemma_red_eq(x: int, y: int, p: int)
    requires
        p > 0,
    ensures
        red(x, p) == red(y, p) <==> red(x - y, p) == 0,
{
    reveal(red);
    lemma_mod_equivalence(x, y, p);
}

/// Adding a multiple of `p` keeps the residue.
pub proof fn lemma_red_shift(x: int, k: int, p: int)
    requires
        p > 0,
    ensures
        red(x + k * p, p) == red(x, p),
{
    reveal(red);
    lemma_mod_multiples_vanish(k, x, p);
    lemma_mul_is_commutative(k, p);
}

/// An integer of absolute value below `p` that reduces to zero is zero.
pub proof fn lemma_red_zero_small(x: int, p: int)
    requires
        -p < x < p,
        red(x, p) == 0,
    ensures
        x == 0,
{
    if x >= 0 {
        lemma_red_small(x, p);
    } else {
        lemma_red_shift(x, 1, p);
        lemma_red_small(x + p, p);
    }
}

proof fn lemma_euclid_small(p: int, a: int, b: int)
    requires
        is_prime(p),
        0 < a < p,
        red(a * b, p) == 0,
    ensures
        red(b, p) == 0,
    decreases a,
{
    if a == 1 {
    } else {
        let q = p / a;
        let r = p % a;
        lemma_fundamental_div_mod(p, a);
        lemma_mod_bound(p, a);
        assert(!divides(a, p));
        assert(r > 0);
        assert(r * b == -q * (a * b) + b * p) by (nonlinear_arith)
            requires
                p == a * q + r,
        ;
        lemma_red_shift(-q * (a * b), b, p);
        lemma_red_mul(-q, a * b, p);
        lemma_mul_by_zero_is_zero(red(-q, p));
        lemma_red_small(0, p);
        lemma_euclid_small(p, r, b);
    }
}

/// Euclid's lemma: a prime that divides a product divides a factor.
pub proof fn lemma_euclid(p: int, a: int, b: int)
    requires
        is_prime(p),
        red(a * b, p) == 0,
    ensures
        red(a, p) == 0 || red(b, p) == 0,
{
    let ra = red(a, p);
    lemma_red_range(a, p);
    lemma_red_mul(a, b, p);
    if ra != 0 {
        lemma_red_mul(ra, b, p);
        lemma_red_small(ra, p);
        lemma_euclid_small(p, ra, b);
    }
}

proof fn lemma_inverse_exists_small(p: int, a: int) -> (x: int)
    requires
        is_prime(p),
        0 < a < p,
    ensures
        red(a * x, p) == 1,
    decreases a,
{
    if a == 1 {
        lemma_red_small(1, p);
        1
    } else {
        let q = p / a;
        let r = p % a;
        lemma_fundamental_div_mod(p, a);
        lemma_mod_bound(p, a);
        assert(!divides(a, p));
        let y = lemma_inverse_exists_small(p, r);
        assert(a * (-q * y) == r * y + (-y) * p) by (nonlinear_arith)
            requires
                p == a * q + r,
        ;
        lemma_red_shift(r * y, -y, p);
        -q * y
    }
}

/// Every residue other than zero has exactly one inverse.
pub proof fn lemma_inverse(p: int, a: int)
    requires
        is_prime(p),
        red(a, p) != 0,
    ensures
        is_inverse(p, a, finv(p, a)),
        forall|x: int| #[trigger] is_inverse(p, a, x) ==> x == finv(p, a),
{
    let ra = red(a, p);
    lemma_red_range(a, p);
    let x0 = lemma_inverse_exists_small(p, ra);
    let x = red(x0, p);
    lemma_red_range(x0, p);
    lemma_red_mul(ra, x0, p);
    lemma_red_small(ra, p);
    lemma_red_mul(a, x, p);
    lemma_red_small(x, p);
    assert(is_inverse(p, a, x));
    assert forall|y: int| #[trigger] is_inverse(p, a, y) implies y == finv(p, a) by {
        lemma_inverse_unique(p, a, y, finv(p, a));
    }
}

proof fn lemma_inverse_unique(p: int, a: int, x: int, y: int)
    requires
        is_prime(p),
        is_inverse(p, a, x),
        is_inverse(p, a, y),
    ensures
        x == y,
{
    lemma_red_eq(a * x, a * y, p);
    assert(a * x - a * y == a * (x - y)) by (nonlinear_arith);
    lemma_euclid(p, a, x - y);
    if red(a, p) == 0 {
        lemma_red_mul(a, x, p);
        lemma_mul_by_zero_is_zero(red(x, p));
        lemma_red_small(0, p);
    } else {
        lemma_red_zero_small(x - y, p);
    }
}

/// Reducing a factor first keeps the residue of a product.
pub proof fn lemma_red_mul_right(x: int, y: int, p: int)
    requires
        p > 0,
    ensures
        red(x * red(y, p), p) == red(x * y, p),
{
    lemma_red_mul(x, y, p);
    lemma_red_mul(x, red(y, p), p);
    lemma_red_range(y, p);
    lemma_red_small(red(y, p), p);
}

/// Reducing a summand first keeps the residue of a sum.
pub proof fn lemma_red_add_right(x: int, y: int, p: int)
    requires
        p > 0,
    ensures
        red(x + red(y, p), p) == red(x + y, p),
{
    lemma_red_add(x, y, p);
    lemma_red_add(x, red(y, p), p);
    lemma_red_range(y, p);
    lemma_red_small(red(y, p), p);
}

/// A residue that is annihilated by itself minus one is zero or one.
pub proof fn lemma_red_bool(v: int, p: int)
    requires
        is_prime(p),
        red(v * (v - 1), p) == 0,
    ensures
        red(v, p) == 0 || red(v, p) == 1,
        0 <= v < p ==> v == 0 || v == 1,
{
    lemma_euclid(p, v, v - 1);
    lemma_red_eq(v, 1, p);
    lemma_red_small(1, p);
    if 0 <= v < p {
        lemma_red_small(v, p);
    }
}

/// Multiplying by `a` undoes multiplying by the inverse of `a`.
pub proof fn lemma_undo_inverse(p: int, a: int, inv: int, t: int)
    requires
        p > 0,
        is_inverse(p, a, inv),
    ensures
        red(a * red(inv * t, p), p) == red(t, p),
{
    lemma_red_mul_right(a, inv * t, p);
    assert(a * (inv * t) == t * (a * inv)) by (nonlinear_arith);
    lemma_red_mul_right(t, a * inv, p);
}

} // verus!
