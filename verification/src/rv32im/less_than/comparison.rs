//! Comparison of numbers in limbs.
use crate::limbs::{
    lemma_limb_base, lemma_limbs_value_bound, lemma_limbs_value_less, limb_base, limbs_in_range,
    limbs_value,
};
use vstd::arithmetic::power::*;
use vstd::arithmetic::power2::*;
use vstd::bits::*;
use vstd::prelude::*;

verus! {

/// Half the base of limbs that have `limb_bits` bits: the place of the sign.
pub open spec fn half_base(limb_bits: usize) -> int {
    limb_base((limb_bits - 1) as usize)
}

/// Signed numbers are compared and the sign is set in the most significant limb of `x`.
pub open spec fn sign_set(is_slt: bool, x: Seq<u8>, limb_bits: usize) -> bool {
    is_slt && x[x.len() - 1] as int / half_base(limb_bits) == 1
}

/// `i` is the most significant index at which `x` and `y` differ, or their length if they are
/// equal.
pub open spec fn is_top_difference(x: Seq<u8>, y: Seq<u8>, i: int) -> bool {
    &&& 0 <= i <= x.len()
    &&& i < x.len() ==> x[i] != y[i]
    &&& forall|j: int| (i < j || i == x.len()) && 0 <= j < x.len() ==> #[trigger] x[j] == y[j]
}

/// Whether `x` is less than `y`, where `i` is the most significant index at which they differ.
pub open spec fn less_at(is_slt: bool, x: Seq<u8>, y: Seq<u8>, limb_bits: usize, i: int) -> bool {
    i < x.len() && (x[i] < y[i]) != (sign_set(is_slt, x, limb_bits) != sign_set(
        is_slt,
        y,
        limb_bits,
    ))
}

/// The signed number that `n` limbs stand for in two's complement.
pub open spec fn limbs_signed_value(s: Seq<u8>, limb_bits: usize) -> int {
    let base = limb_base(limb_bits);
    let n = s.len() as int;
    limbs_value(s, base, n) - (if s[n - 1] >= half_base(limb_bits) {
        pow(base, n as nat)
    } else {
        0
    })
}

/// Returns whether `x` is less than `y`, the most significant index at which they differ (the
/// number of limbs if they are equal), and the signs of `x` and `y`.
pub fn run_less_than<const NUM_LIMBS: usize, const LIMB_BITS: usize>(
    is_slt: bool,
    x: &[u8; NUM_LIMBS],
    y: &[u8; NUM_LIMBS],
) -> (r: (bool, usize, bool, bool))
    requires
        NUM_LIMBS >= 1,
        1 <= LIMB_BITS <= 8,
    ensures
        is_top_difference(x@, y@, r.1 as int),
        r.0 == less_at(is_slt, x@, y@, LIMB_BITS, r.1 as int),
        r.2 == sign_set(is_slt, x@, LIMB_BITS),
        r.3 == sign_set(is_slt, y@, LIMB_BITS),
        limbs_in_range(x@, limb_base(LIMB_BITS)) && limbs_in_range(y@, limb_base(LIMB_BITS))
            ==> r.0 == (if is_slt {
            limbs_signed_value(x@, LIMB_BITS) < limbs_signed_value(y@, LIMB_BITS)
        } else {
            limbs_value(x@, limb_base(LIMB_BITS), NUM_LIMBS as int) < limbs_value(
                y@,
                limb_base(LIMB_BITS),
                NUM_LIMBS as int,
            )
        }),
{
    proof {
        lemma_top_shift(x[NUM_LIMBS - 1], LIMB_BITS);
        lemma_top_shift(y[NUM_LIMBS - 1], LIMB_BITS);
    }
    let shift: u8 = LIMB_BITS as u8 - 1;
    let x_sign = x[NUM_LIMBS - 1] >> shift == 1 && is_slt;
    let y_sign = y[NUM_LIMBS - 1] >> shift == 1 && is_slt;
    let mut i = NUM_LIMBS;
    while i > 0
        invariant
            0 <= i <= NUM_LIMBS,
            1 <= LIMB_BITS <= 8,
            x_sign == sign_set(is_slt, x@, LIMB_BITS),
            y_sign == sign_set(is_slt, y@, LIMB_BITS),
            forall|j: int| i <= j < NUM_LIMBS ==> #[trigger] x[j] == y[j],
        decreases i,
    {
        i = i - 1;
        if x[i] != y[i] {
            proof {
                lemma_less_at(is_slt, x@, y@, LIMB_BITS, i as int);
            }
            let less = (x[i] < y[i]) != (x_sign != y_sign);
            return (less, i, x_sign, y_sign);
        }
    }
    proof {
        lemma_less_at(is_slt, x@, y@, LIMB_BITS, NUM_LIMBS as int);
    }
    (false, NUM_LIMBS, x_sign, y_sign)
}

proof fn lemma_top_shift(x: u8, limb_bits: usize)
    requires
        1 <= limb_bits <= 8,
    ensures
        x >> ((limb_bits as u8 - 1) as u8) == x as int / half_base(limb_bits),
{
    lemma_u8_shr_is_div(x, (limb_bits as u8 - 1) as u8);
}

/// On limbs, the comparison is that of the numbers that the limbs stand for.
pub proof fn lemma_less_at(is_slt: bool, x: Seq<u8>, y: Seq<u8>, limb_bits: usize, i: int)
    requires
        1 <= limb_bits <= 8,
        x.len() == y.len(),
        x.len() >= 1,
        is_top_difference(x, y, i),
    ensures
        limbs_in_range(x, limb_base(limb_bits)) && limbs_in_range(y, limb_base(limb_bits))
            ==> less_at(is_slt, x, y, limb_bits, i) == (if is_slt {
            limbs_signed_value(x, limb_bits) < limbs_signed_value(y, limb_bits)
        } else {
            limbs_value(x, limb_base(limb_bits), x.len() as int) < limbs_value(
                y,
                limb_base(limb_bits),
                x.len() as int,
            )
        }),
{
    let base = limb_base(limb_bits);
    let half = half_base(limb_bits);
    let n = x.len() as int;
    lemma_limb_base(limb_bits);
    lemma_limb_base((limb_bits - 1) as usize);
    if limbs_in_range(x, base) && limbs_in_range(y, base) {
        lemma_limbs_value_bound(x, base, n);
        lemma_limbs_value_bound(y, base, n);
        lemma_sign(x[n - 1] as int, half);
        lemma_sign(y[n - 1] as int, half);
        if i == n {
            assert(x =~= y);
        } else if x[i] < y[i] {
            lemma_limbs_value_less(x, y, base, i, n);
        } else {
            lemma_limbs_value_less(y, x, base, i, n);
        }
    }
}

/// A digit below twice `half` has its top bit set exactly when it is at least `half`.
pub proof fn lemma_sign(x: int, half: int)
    requires
        half >= 1,
        0 <= x < 2 * half,
    ensures
        (x / half == 1) == (x >= half),
{
    assert(x >= half ==> x / half == 1) by (nonlinear_arith)
        requires
            half >= 1,
            0 <= x < 2 * half,
    ;
    assert(x < half ==> x / half == 0) by (nonlinear_arith)
        requires
            half >= 1,
            0 <= x,
    ;
}

} // verus!
