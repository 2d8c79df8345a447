//! Arithmetic and logic on numbers in limbs.
use crate::instructions::BaseAluOpcode;
use crate::limbs::{lemma_limb_base, limb_base, limbs_in_range};
use vstd::arithmetic::div_mod::*;
use vstd::arithmetic::power::*;
use vstd::arithmetic::power2::*;
use vstd::bits::*;
use vstd::prelude::*;

verus! {

/// The carry into limb `i` of the sum of `x` and `y`. Carries are kept in bytes.
pub open spec fn add_carry(x: Seq<u8>, y: Seq<u8>, base: int, i: int) -> int
    decreases i,
{
    if i <= 0 {
        0
    } else {
        ((x[i - 1] + y[i - 1] + add_carry(x, y, base, i - 1)) / base) % 256
    }
}

/// The limbs of the sum of `x` and `y`.
pub open spec fn add_limbs(x: Seq<u8>, y: Seq<u8>, base: int) -> Seq<u8> {
    Seq::new(x.len(), |i: int| ((x[i] + y[i] + add_carry(x, y, base, i)) % base) as u8)
}

/// The borrow from limb `i` in the difference of `x` and `y`.
pub open spec fn sub_borrow(x: Seq<u8>, y: Seq<u8>, i: int) -> int
    decreases i,
{
    if i <= 0 {
        0
    } else if x[i - 1] >= y[i - 1] + sub_borrow(x, y, i - 1) {
        0
    } else {
        1
    }
}

/// The limbs of the difference of `x` and `y`.
pub open spec fn sub_limbs(x: Seq<u8>, y: Seq<u8>, base: int) -> Seq<u8> {
    Seq::new(
        x.len(),
        |i: int|
            {
                let rhs = y[i] + sub_borrow(x, y, i);
                if x[i] >= rhs {
                    (x[i] - rhs) as u8
                } else {
                    (x[i] + base - rhs) as u8
                }
            },
    )
}

/// No limb of `y`, with its borrow, exceeds the same limb of `x` by more than the base.
pub open spec fn sub_defined(x: Seq<u8>, y: Seq<u8>, base: int) -> bool {
    forall|i: int| 0 <= i < x.len() ==> #[trigger] y[i] + sub_borrow(x, y, i) <= x[i] + base
}

pub open spec fn xor_limbs(x: Seq<u8>, y: Seq<u8>) -> Seq<u8> {
    Seq::new(x.len(), |i: int| x[i] ^ y[i])
}

pub open spec fn or_limbs(x: Seq<u8>, y: Seq<u8>) -> Seq<u8> {
    Seq::new(x.len(), |i: int| x[i] | y[i])
}

pub open spec fn and_limbs(x: Seq<u8>, y: Seq<u8>) -> Seq<u8> {
    Seq::new(x.len(), |i: int| x[i] & y[i])
}

/// The limbs that the operation `opcode` yields.
pub open spec fn alu_limbs(opcode: BaseAluOpcode, x: Seq<u8>, y: Seq<u8>, base: int) -> Seq<u8> {
    match opcode {
        BaseAluOpcode::ADD => add_limbs(x, y, base),
        BaseAluOpcode::SUB => sub_limbs(x, y, base),
        BaseAluOpcode::XOR => xor_limbs(x, y),
        BaseAluOpcode::OR => or_limbs(x, y),
        BaseAluOpcode::AND => and_limbs(x, y),
    }
}

pub fn run_alu<const NUM_LIMBS: usize, const LIMB_BITS: usize>(
    opcode: BaseAluOpcode,
    x: &[u8; NUM_LIMBS],
    y: &[u8; NUM_LIMBS],
) -> (z: [u8; NUM_LIMBS])
    requires
        LIMB_BITS <= 8,
        opcode == BaseAluOpcode::SUB ==> sub_defined(x@, y@, limb_base(LIMB_BITS)),
    ensures
        z@ == alu_limbs(opcode, x@, y@, limb_base(LIMB_BITS)),
{
    match opcode {
        BaseAluOpcode::ADD => run_add::<NUM_LIMBS, LIMB_BITS>(x, y),
        BaseAluOpcode::SUB => run_subtract::<NUM_LIMBS, LIMB_BITS>(x, y),
        BaseAluOpcode::XOR => run_xor::<NUM_LIMBS>(x, y),
        BaseAluOpcode::OR => run_or::<NUM_LIMBS>(x, y),
        BaseAluOpcode::AND => run_and::<NUM_LIMBS>(x, y),
    }
}

pub proof fn lemma_add_carry_range(x: Seq<u8>, y: Seq<u8>, base: int, i: int)
    requires
        base >= 1,
        0 <= i <= x.len(),
        x.len() == y.len(),
    ensures
        0 <= add_carry(x, y, base, i) < 256,
        limbs_in_range(x, base) && limbs_in_range(y, base) ==> add_carry(x, y, base, i) <= 1,
    decreases i,
{
    if i > 0 {
        lemma_add_carry_range(x, y, base, i - 1);
        let t = x[i - 1] + y[i - 1] + add_carry(x, y, base, i - 1);
        lemma_div_pos_is_pos(t, base);
        if limbs_in_range(x, base) && limbs_in_range(y, base) {
            lemma_fundamental_div_mod(t, base);
            lemma_mod_bound(t, base);
            let q = t / base;
            assert(q <= 1) by (nonlinear_arith)
                requires
                    t == base * q + t % base,
                    t % base >= 0,
                    t < 2 * base,
                    base >= 1,
            ;
        }
    }
}

/// The sum of two numbers in limbs. Each limb is the digit sum with its carry, reduced to a digit;
/// on digits of the base the result is the sum modulo `base^NUM_LIMBS`.
pub fn run_add<const NUM_LIMBS: usize, const LIMB_BITS: usize>(
    x: &[u8; NUM_LIMBS],
    y: &[u8; NUM_LIMBS],
) -> (z: [u8; NUM_LIMBS])
    requires
        LIMB_BITS <= 8,
    ensures
        z@ == add_limbs(x@, y@, limb_base(LIMB_BITS)),
{
    let mut z = [0u8; NUM_LIMBS];
    let mut carry = [0u8; NUM_LIMBS];
    let ghost base = limb_base(LIMB_BITS);
    proof {
        lemma_limb_base(LIMB_BITS);
    }
    for i in 0..NUM_LIMBS
        invariant
            LIMB_BITS <= 8,
            base == limb_base(LIMB_BITS),
            1 <= base <= 256,
            forall|j: int| 0 <= j < i ==> #[trigger] z[j] == add_limbs(x@, y@, base)[j],
            forall|j: int| 0 <= j < i ==> #[trigger] carry[j] == add_carry(x@, y@, base, j + 1),
    {
        let carry_in: u16 = if i > 0 {
            carry[i - 1] as u16
        } else {
            0
        };
        proof {
            lemma_add_carry_range(x@, y@, base, i as int);
            assert(carry_in == add_carry(x@, y@, base, i as int));
        }
        let overflow: u16 = (x[i] as u16) + (y[i] as u16) + carry_in;
        proof {
            lemma_u16_shr_is_div(overflow, LIMB_BITS as u16);
            lemma_u16_low_bits_mask_is_mod(overflow, LIMB_BITS as nat);
            lemma_u16_shl_is_mul(1, LIMB_BITS as u16);
            let q: u16 = overflow >> LIMB_BITS;
            assert(q as u8 == q % 256) by (bit_vector);
            lemma_mod_bound(overflow as int, base);
        }
        carry[i] = (overflow >> LIMB_BITS) as u8;
        let digit: u16 = overflow & ((1u16 << LIMB_BITS) - 1);
        z[i] = digit as u8;
    }
    assert(z@ =~= add_limbs(x@, y@, base));
    z
}

/// The difference of two numbers in limbs. Each limb is the digit difference with its borrow; on
/// digits of the base the result is the difference modulo `base^NUM_LIMBS`.
pub fn run_subtract<const NUM_LIMBS: usize, const LIMB_BITS: usize>(
    x: &[u8; NUM_LIMBS],
    y: &[u8; NUM_LIMBS],
) -> (z: [u8; NUM_LIMBS])
    requires
        LIMB_BITS <= 8,
        sub_defined(x@, y@, limb_base(LIMB_BITS)),
    ensures
        z@ == sub_limbs(x@, y@, limb_base(LIMB_BITS)),
{
    let mut z = [0u8; NUM_LIMBS];
    let mut carry = [0u8; NUM_LIMBS];
    let ghost base = limb_base(LIMB_BITS);
    proof {
        lemma_limb_base(LIMB_BITS);
    }
    for i in 0..NUM_LIMBS
        invariant
            LIMB_BITS <= 8,
            base == limb_base(LIMB_BITS),
            1 <= base <= 256,
            sub_defined(x@, y@, base),
            forall|j: int| 0 <= j < i ==> #[trigger] z[j] == sub_limbs(x@, y@, base)[j],
            forall|j: int| 0 <= j < i ==> #[trigger] carry[j] == sub_borrow(x@, y@, j + 1),
    {
        let borrow: u16 = if i > 0 {
            carry[i - 1] as u16
        } else {
            0
        };
        proof {
            assert(borrow == sub_borrow(x@, y@, i as int));
            assert(y@[i as int] + sub_borrow(x@, y@, i as int) <= x@[i as int] + base);
        }
        let rhs: u16 = y[i] as u16 + borrow;
        if x[i] as u16 >= rhs {
            z[i] = x[i] - rhs as u8;
            carry[i] = 0;
        } else {
            proof {
                lemma_u16_shl_is_mul(1, LIMB_BITS as u16);
            }
            z[i] = (x[i] as u16 + (1u16 << LIMB_BITS) - rhs) as u8;
            carry[i] = 1;
        }
    }
    assert(z@ =~= sub_limbs(x@, y@, base));
    z
}

/// The exclusive or, limb by limb.
pub fn run_xor<const NUM_LIMBS: usize>(x: &[u8; NUM_LIMBS], y: &[u8; NUM_LIMBS]) -> (z: [u8;
    NUM_LIMBS])
    ensures
        z@ == xor_limbs(x@, y@),
{
    let mut z = [0u8; NUM_LIMBS];
    for i in 0..NUM_LIMBS
        invariant
            forall|j: int| 0 <= j < i ==> #[trigger] z[j] == x[j] ^ y[j],
    {
        z[i] = x[i] ^ y[i];
    }
    assert(z@ =~= xor_limbs(x@, y@));
    z
}

/// The inclusive or, limb by limb.
pub fn run_or<const NUM_LIMBS: usize>(x: &[u8; NUM_LIMBS], y: &[u8; NUM_LIMBS]) -> (z: [u8;
    NUM_LIMBS])
    ensures
        z@ == or_limbs(x@, y@),
{
    let mut z = [0u8; NUM_LIMBS];
    for i in 0..NUM_LIMBS
        invariant
            forall|j: int| 0 <= j < i ==> #[trigger] z[j] == x[j] | y[j],
    {
        z[i] = x[i] | y[i];
    }
    assert(z@ =~= or_limbs(x@, y@));
    z
}

/// The and, limb by limb.
pub fn run_and<const NUM_LIMBS: usize>(x: &[u8; NUM_LIMBS], y: &[u8; NUM_LIMBS]) -> (z: [u8;
    NUM_LIMBS])
    ensures
        z@ == and_limbs(x@, y@),
{
    let mut z = [0u8; NUM_LIMBS];
    for i in 0..NUM_LIMBS
        invariant
            forall|j: int| 0 <= j < i ==> #[trigger] z[j] == x[j] & y[j],
    {
        z[i] = x[i] & y[i];
    }
    assert(z@ =~= and_limbs(x@, y@));
    z
}

} // verus!
