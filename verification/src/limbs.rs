//! Little-endian limbs and the numbers they stand for.
use vstd::arithmetic::div_mod::*;
use vstd::arithmetic::mul::*;
use vstd::arithmetic::power::*;
use vstd::arithmetic::power2::*;
use vstd::bits::*;
use vstd::prelude::*;

verus! {

/// The four little-endian bytes of `x`.
pub open spec fn le_bytes(x: u32) -> Seq<u8> {
    seq![
        (x % 256) as u8,
        ((x / 256) % 256) as u8,
        ((x / 0x1_0000) % 256) as u8,
        (x / 0x100_0000) as u8,
    ]
}

/// The number whose four little-endian bytes are `b`.
pub open spec fn le_value(b: Seq<u8>) -> int {
    b[0] + 256 * b[1] + 0x1_0000 * b[2] + 0x100_0000 * b[3]
}

/// The signed number whose four little-endian bytes are `b`, in two's complement.
pub open spec fn le_signed_value(b: Seq<u8>) -> int {
    if le_value(b) < 0x8000_0000 {
        le_value(b)
    } else {
        le_value(b) - 0x1_0000_0000
    }
}

pub fn u32_to_le_bytes(x: u32) -> (r: [u8; 4])
    ensures
        r@ == le_bytes(x),
        le_value(r@) == x,
{
    [(x % 256) as u8, ((x / 256) % 256) as u8, ((x / 0x1_0000) % 256) as u8, (x / 0x100_0000) as u8]
}

pub fn u32_from_le_bytes(b: [u8; 4]) -> (r: u32)
    ensures
        r == le_value(b@),
        b@ == le_bytes(r),
{
    proof {
        lemma_le_round_trip(0, b@);
    }
    b[0] as u32 + 256 * (b[1] as u32) + 0x1_0000 * (b[2] as u32) + 0x100_0000 * (b[3] as u32)
}

pub fn i32_from_le_bytes(b: [u8; 4]) -> (r: i32)
    ensures
        r == le_signed_value(b@),
{
    let x: u32 = u32_from_le_bytes(b);
    if x < 0x8000_0000 {
        x as i32
    } else {
        (x as i64 - 0x1_0000_0000) as i32
    }
}

/// Four bytes and their value determine each other.
pub proof fn lemma_le_round_trip(x: u32, b: Seq<u8>)
    requires
        b.len() == 4,
    ensures
        le_value(le_bytes(x)) == x,
        0 <= le_value(b) <= u32::MAX,
        le_bytes(le_value(b) as u32) == b,
{
    assert(le_bytes(le_value(b) as u32) =~= b);
}

/// The number whose lowest `n` limbs in the given base are those of `s`.
pub open spec fn limbs_value(s: Seq<u8>, base: int, n: int) -> int
    decreases n,
{
    if n <= 0 {
        0
    } else {
        limbs_value(s, base, n - 1) + s[n - 1] * pow(base, (n - 1) as nat)
    }
}

/// The base of limbs that have `bits` bits.
pub open spec fn limb_base(bits: usize) -> int {
    pow2(bits as nat) as int
}

/// Every limb is a digit of the base.
pub open spec fn limbs_in_range(s: Seq<u8>, base: int) -> bool {
    forall|i: int| 0 <= i < s.len() ==> #[trigger] s[i] < base
}

pub proof fn lemma_limb_base(bits: usize)
    ensures
        limb_base(bits) >= 1,
        bits <= 8 ==> limb_base(bits) <= 256,
        bits >= 1 ==> limb_base(bits) == 2 * limb_base((bits - 1) as usize),
        limb_base(8) == 256,
        limb_base(0) == 1,
{
    lemma_pow2_pos(bits as nat);
    lemma2_to64();
    if bits < 8 {
        lemma_pow2_strictly_increases(bits as nat, 8);
    }
    if bits >= 1 {
        lemma_pow2_unfold(bits as nat);
    }
}

/// `n` limbs in range stand for a number below `base^n`.
pub proof fn lemma_limbs_value_bound(s: Seq<u8>, base: int, n: int)
    requires
        base >= 1,
        0 <= n <= s.len(),
        limbs_in_range(s, base),
    ensures
        0 <= limbs_value(s, base, n) < pow(base, n as nat),
    decreases n,
{
    lemma_pow0(base);
    if n > 0 {
        lemma_limbs_value_bound(s, base, n - 1);
        let w = pow(base, (n - 1) as nat);
        lemma_pow_positive(base, (n - 1) as nat);
        lemma_pow_adds(base, (n - 1) as nat, 1);
        lemma_pow1(base);
        let d = s[n - 1] as int;
        assert(0 <= d * w <= (base - 1) * w) by (nonlinear_arith)
            requires
                0 <= d <= base - 1,
                w > 0,
        ;
        assert((base - 1) * w + w == w * base) by (nonlinear_arith);
    }
}

/// The value of the lowest `n` limbs depends on those limbs alone.
pub proof fn lemma_limbs_value_prefix(s: Seq<u8>, t: Seq<u8>, base: int, n: int)
    requires
        0 <= n <= s.len(),
        n <= t.len(),
        forall|i: int| 0 <= i < n ==> s[i] == t[i],
    ensures
        limbs_value(s, base, n) == limbs_value(t, base, n),
    decreases n,
{
    if n > 0 {
        lemma_limbs_value_prefix(s, t, base, n - 1);
    }
}

/// Limbs that agree above index `i` and increase at `i` stand for increasing numbers.
pub proof fn lemma_limbs_value_less(s: Seq<u8>, t: Seq<u8>, base: int, i: int, n: int)
    requires
        base >= 1,
        0 <= i < n <= s.len(),
        n <= t.len(),
        limbs_in_range(s, base),
        s[i] < t[i],
        forall|j: int| i < j < n ==> s[j] == t[j],
    ensures
        limbs_value(s, base, n) < limbs_value(t, base, n),
    decreases n,
{
    if n == i + 1 {
        lemma_limbs_value_bound(s, base, i);
        lemma_limbs_value_nonneg(t, base, i);
        let w = pow(base, i as nat);
        lemma_pow_positive(base, i as nat);
        let x = s[i] as int;
        let y = t[i] as int;
        assert(x * w + w <= y * w) by (nonlinear_arith)
            requires
                x + 1 <= y,
                w > 0,
        ;
    } else {
        lemma_limbs_value_less(s, t, base, i, n - 1);
    }
}

pub proof fn lemma_limbs_value_nonneg(s: Seq<u8>, base: int, n: int)
    requires
        base >= 1,
        0 <= n <= s.len(),
    ensures
        0 <= limbs_value(s, base, n),
    decreases n,
{
    if n > 0 {
        lemma_limbs_value_nonneg(s, base, n - 1);
        lemma_pow_positive(base, (n - 1) as nat);
        lemma_mul_nonnegative(s[n - 1] as int, pow(base, (n - 1) as nat));
    }
}

/// Four byte limbs stand for their little-endian value.
pub proof fn lemma_limbs_value_le(b: Seq<u8>)
    requires
        b.len() == 4,
    ensures
        limbs_value(b, 256, 4) == le_value(b),
        pow(256, 4) == 0x1_0000_0000,
{
    reveal_with_fuel(limbs_value, 5);
    reveal(pow);
    reveal_with_fuel(pow, 5);
    assert(pow(256, 0) == 1);
    assert(pow(256, 1) == 256);
    assert(pow(256, 2) == 0x1_0000);
    assert(pow(256, 3) == 0x100_0000);
}

/// The base of the limbs, where it lies below `order`.
pub fn limb_base_u32<const LIMB_BITS: usize>(order: u32) -> (r: u32)
    requires
        limb_base(LIMB_BITS) < order,
    ensures
        r == limb_base(LIMB_BITS),
        r >= 1,
{
    proof {
        lemma2_to64();
        if LIMB_BITS >= 32 {
            if LIMB_BITS > 32 {
                lemma_pow2_strictly_increases(32, LIMB_BITS as nat);
            }
        } else {
            lemma_pow2_pos(LIMB_BITS as nat);
            lemma_u32_shl_is_mul(1, LIMB_BITS as u32);
        }
    }
    1u32 << (LIMB_BITS as u32)
}

} // verus!
