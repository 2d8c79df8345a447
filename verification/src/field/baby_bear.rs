//! The field of `2^31 - 2^27 + 1` elements.
use crate::field::number_theory::{
    fadd, fmul, fsub, divides, is_prime, lemma_inverse, lemma_red_add, lemma_red_mul,
    lemma_red_small, lemma_red_shift, lemma_red_range, red,
};
use crate::field::PrimeField32;
use vstd::arithmetic::div_mod::*;
use vstd::arithmetic::mul::*;
use vstd::arithmetic::power::*;
use vstd::arithmetic::power2::*;
use vstd::prelude::*;
use vstd::set_lib::*;

verus! {

/// The order of the field.
pub const BABY_BEAR_ORDER: u32 = 0x7800_0001;

/// An element of the field of [`BABY_BEAR_ORDER`] elements.
#[derive(Clone, Copy, Debug, PartialEq, Eq)]
pub struct BabyBear {
    value: u32,
}

/// An element of multiplicative order `2^27`.
spec fn root() -> int {
    440564289
}

spec fn order_int() -> int {
    2013265921
}

/// One squaring step: from the residue of `b^e` to that of `b^(2e)`.
proof fn lemma_square_step(e: nat, c: int, d: int)
    requires
        pow(root(), e) % order_int() == c,
        (c * c) % order_int() == d,
    ensures
        pow(root(), 2 * e) % order_int() == d,
{
    lemma_pow_adds(root(), e, e);
    lemma_mul_mod_noop(pow(root(), e), pow(root(), e), order_int());
}

/// `root^(2^26)` is minus one.
proof fn lemma_root_half_order()
    ensures
        pow(root(), 0x400_0000) % order_int() == order_int() - 1,
{
    lemma_pow1(root());
    lemma_square_step(0x1, 440564289, 975630072);
    lemma_square_step(0x2, 975630072, 1149491290);
    lemma_square_step(0x4, 1149491290, 1003846038);
    lemma_square_step(0x8, 1003846038, 1267047229);
    lemma_square_step(0x10, 1267047229, 570250684);
    lemma_square_step(0x20, 570250684, 414040701);
    lemma_square_step(0x40, 414040701, 195061667);
    lemma_square_step(0x80, 195061667, 1049899240);
    lemma_square_step(0x100, 1049899240, 1559589183);
    lemma_square_step(0x200, 1559589183, 1286330022);
    lemma_square_step(0x400, 1286330022, 1421947380);
    lemma_square_step(0x800, 1421947380, 2009781145);
    lemma_square_step(0x1000, 2009781145, 1657000625);
    lemma_square_step(0x2000, 1657000625, 298008106);
    lemma_square_step(0x4000, 298008106, 1282623253);
    lemma_square_step(0x8000, 1282623253, 1340477990);
    lemma_square_step(0x1_0000, 1340477990, 341742893);
    lemma_square_step(0x2_0000, 341742893, 1753498361);
    lemma_square_step(0x4_0000, 1753498361, 1732600167);
    lemma_square_step(0x8_0000, 1732600167, 397765732);
    lemma_square_step(0x10_0000, 397765732, 1721589904);
    lemma_square_step(0x20_0000, 1721589904, 760005850);
    lemma_square_step(0x40_0000, 760005850, 196396260);
    lemma_square_step(0x80_0000, 196396260, 1592366214);
    lemma_square_step(0x100_0000, 1592366214, 1728404513);
    lemma_square_step(0x200_0000, 1728404513, 2013265920);
}

/// The residue of `root^k` modulo `q`.
spec fn root_power(q: int, k: int) -> int {
    pow(root(), k as nat) % q
}

/// Modulo a divisor of the order, `root^(2^26)` is minus one and `root^(2^27)` is one.
proof fn lemma_root_power_ends(q: int)
    requires
        q > 1,
        divides(q, order_int()),
    ensures
        root_power(q, 0x400_0000) == q - 1,
        root_power(q, 0x800_0000) == 1,
        q > 2,
{
    lemma_root_half_order();
    let n = order_int();
    let x = pow(root(), 0x400_0000);
    let k = x / n;
    let m = n / q;
    lemma_fundamental_div_mod(x, n);
    lemma_fundamental_div_mod(n, q);
    assert(x == q * (m * (k + 1) - 1) + (q - 1)) by (nonlinear_arith)
        requires
            x == n * k + (n - 1),
            n == q * m,
    ;
    lemma_fundamental_div_mod_converse(x, q, m * (k + 1) - 1, q - 1);
    lemma_pow_adds(root(), 0x400_0000, 0x400_0000);
    lemma_mul_mod_noop(x, x, q);
    assert((q - 1) * (q - 1) == q * (q - 2) + 1) by (nonlinear_arith);
    lemma_fundamental_div_mod_converse((q - 1) * (q - 1), q, q - 2, 1);
}

/// No exponent strictly between 0 and `2^27` sends `root` to one.
proof fn lemma_root_order(q: int, k: int, s: nat)
    requires
        q > 1,
        divides(q, order_int()),
        0 < k < 0x800_0000,
        s <= 26,
        k % (pow2(s) as int) == 0,
    ensures
        root_power(q, k) != 1,
    decreases 26 - s,
{
    lemma_root_power_ends(q);
    lemma2_to64();
    if k == 0x400_0000 || s == 26 {
        assert(pow2(26) == 0x400_0000);
        assert(s == 26 ==> k % 0x400_0000 == 0);
        assert(k == 0x400_0000);
    } else if root_power(q, k) == 1 {
        let m = pow2(s) as int;
        lemma_pow2_pos(s);
        lemma_pow2_unfold((s + 1) as nat);
        let d = 2 * k;
        let x = pow(root(), k as nat);
        lemma_pow_adds(root(), k as nat, k as nat);
        lemma_mul_mod_noop(x, x, q);
        lemma_small_mod(1, q as nat);
        assert(root_power(q, d) == 1);
        lemma_fundamental_div_mod(k, m);
        let j = k / m;
        assert(d == (2 * m) * j) by (nonlinear_arith)
            requires
                k == m * j,
                d == 2 * k,
        ;
        lemma_mod_multiples_basic(j, 2 * m);
        lemma_mul_is_commutative(j, 2 * m);
        if d < 0x800_0000 {
            lemma_root_order(q, d, s + 1);
        } else {
            let r = d - 0x800_0000;
            lemma_pow_adds(root(), r as nat, 0x800_0000);
            lemma_mul_mod_noop(pow(root(), r as nat), pow(root(), 0x800_0000), q);
            lemma_mod_twice(pow(root(), r as nat), q);
            assert(root_power(q, r) == 1);
            // `2m` divides `2^27` as well as `2k`
            let c = pow2((26 - s) as nat) as int;
            lemma_pow2_adds((s + 1) as nat, (26 - s) as nat);
            assert(pow2(27) == 0x800_0000);
            assert(0x800_0000 == (2 * m) * c);
            assert(r == (2 * m) * (j - c)) by (nonlinear_arith)
                requires
                    d == (2 * m) * j,
                    0x800_0000 == (2 * m) * c,
                    r == d - 0x800_0000,
            ;
            lemma_mod_multiples_basic(j - c, 2 * m);
            lemma_mul_is_commutative(j - c, 2 * m);
            lemma_root_order(q, r, s + 1);
        }
    }
}

/// The first `2^27` powers of `root` are distinct modulo a divisor of the order.
proof fn lemma_root_powers_distinct(q: int, i: int, j: int)
    requires
        q > 1,
        divides(q, order_int()),
        0 <= i < j < 0x800_0000,
    ensures
        root_power(q, i) != root_power(q, j),
{
    if root_power(q, i) == root_power(q, j) {
        lemma_root_power_ends(q);
        let n: nat = 0x800_0000;
        let t = (n - i) as nat;
        let k = j - i;
        let xi = pow(root(), i as nat);
        let xj = pow(root(), j as nat);
        let xt = pow(root(), t);
        lemma_pow_adds(root(), i as nat, t);
        lemma_pow_adds(root(), j as nat, t);
        lemma_pow_adds(root(), k as nat, n);
        lemma_mul_mod_noop(xi, xt, q);
        lemma_mul_mod_noop(xj, xt, q);
        lemma_mul_mod_noop(pow(root(), k as nat), pow(root(), n), q);
        lemma_mod_twice(pow(root(), k as nat), q);
        assert(root_power(q, k) == 1);
        lemma2_to64();
        lemma_root_order(q, k, 0);
    }
}

/// Every divisor of the order other than one is at least `2^27`.
proof fn lemma_divisors_are_large(q: int)
    requires
        q > 1,
        divides(q, order_int()),
    ensures
        q >= 0x800_0000,
{
    let exps = set_int_range(0, 0x800_0000);
    let f = |k: int| root_power(q, k);
    let image = exps.map(f);
    lemma_int_range(0, 0x800_0000);
    lemma_int_range(0, q);
    assert forall|i: int, j: int| exps.contains(i) && exps.contains(j) && #[trigger] f(i) == #[trigger] f(j) implies i
        == j by {
        if i < j {
            lemma_root_powers_distinct(q, i, j);
        } else if j < i {
            lemma_root_powers_distinct(q, j, i);
        }
    }
    lemma_map_size(exps, image, f);
    assert forall|y: int| image.contains(y) implies set_int_range(0, q).contains(y) by {
        let k = choose|k: int| exps.contains(k) && y == f(k);
        lemma_mod_bound(pow(root(), k as nat), q);
    }
    lemma_len_subset(image, set_int_range(0, q));
}

/// The order is prime.
pub proof fn lemma_baby_bear_order_is_prime()
    ensures
        is_prime(BABY_BEAR_ORDER as int),
{
    let n = order_int();
    assert forall|d: int| 1 < d < n implies !#[trigger] divides(d, n) by {
        if divides(d, n) {
            let e = n / d;
            lemma_fundamental_div_mod(n, d);
            assert(1 < e) by (nonlinear_arith)
                requires
                    n == d * e,
                    d < n,
                    n > 0,
                    d > 1,
            ;
            lemma_fundamental_div_mod_converse(n, e, d, 0);
            lemma_divisors_are_large(d);
            lemma_divisors_are_large(e);
            assert(d * e >= 0x800_0000 * 0x800_0000) by (nonlinear_arith)
                requires
                    d >= 0x800_0000,
                    e >= 0x800_0000,
            ;
        }
    }
}

impl PrimeField32 for BabyBear {
    open spec fn order() -> int {
        BABY_BEAR_ORDER as int
    }

    closed spec fn val(self) -> int {
        red(self.value as int, BABY_BEAR_ORDER as int)
    }

    proof fn order_is_prime() {
        assert(Self::order() == BABY_BEAR_ORDER);
        lemma_baby_bear_order_is_prime();
    }

    proof fn val_is_canonical(self) {
        lemma_red_range(self.value as int, BABY_BEAR_ORDER as int);
    }

    fn order_u32() -> (n: u32) {
        BABY_BEAR_ORDER
    }

    fn from_canonical_u32(n: u32) -> (r: Self) {
        proof {
            lemma_red_small(n as int, BABY_BEAR_ORDER as int);
        }
        BabyBear { value: n }
    }

    fn as_canonical_u32(self) -> (n: u32) {
        proof {
            reveal(red);
        }
        self.value % BABY_BEAR_ORDER
    }

    fn add(self, other: Self) -> (r: Self) {
        proof {
            reveal(red);
            lemma_red_add(self.value as int, other.value as int, BABY_BEAR_ORDER as int);
            lemma_red_small(red(self.value + other.value, BABY_BEAR_ORDER as int), BABY_BEAR_ORDER as int);
        }
        let sum: u64 = (self.value as u64 + other.value as u64) % (BABY_BEAR_ORDER as u64);
        proof {
            reveal(fadd);
        }
        BabyBear { value: sum as u32 }
    }

    fn sub(self, other: Self) -> (r: Self) {
        let a: u32 = self.as_canonical_u32();
        let b: u32 = other.as_canonical_u32();
        proof {
            lemma_red_shift(a - b, 1, BABY_BEAR_ORDER as int);
            reveal(red);
        }
        let diff: u64 = (a as u64 + BABY_BEAR_ORDER as u64 - b as u64) % (BABY_BEAR_ORDER as u64);
        proof {
            reveal(fsub);
        }
        BabyBear { value: diff as u32 }
    }

    fn mul(self, other: Self) -> (r: Self) {
        let a: u32 = self.as_canonical_u32();
        let b: u32 = other.as_canonical_u32();
        proof {
            self.val_is_canonical();
            other.val_is_canonical();
        }
        assert(a * b <= 0x7800_0001 * 0x7800_0001) by (nonlinear_arith)
            requires
                0 <= a <= 0x7800_0001,
                0 <= b <= 0x7800_0001,
        ;
        proof {
            reveal(red);
        }
        let product: u64 = (a as u64 * b as u64) % (BABY_BEAR_ORDER as u64);
        proof {
            reveal(fmul);
        }
        BabyBear { value: product as u32 }
    }

    fn inverse(self) -> (r: Self) {
        let ghost p = BABY_BEAR_ORDER as int;
        let ghost a0 = self.val();
        proof {
            lemma_baby_bear_order_is_prime();
            lemma_red_range(self.value as int, p);
            lemma_red_small(a0, p);
            lemma_red_small(1, p);
            lemma_inverse(p, a0);
        }
        let mut a: u32 = self.as_canonical_u32();
        let mut t: u32 = 1;
        // `self * t` stays congruent to `a` while `a` shrinks to one
        while a != 1
            invariant
                p == BABY_BEAR_ORDER,
                is_prime(p),
                0 < a < p,
                0 <= t < p,
                red(a0 * t, p) == a,
            decreases a,
        {
            let q: u32 = BABY_BEAR_ORDER / a;
            let r: u32 = BABY_BEAR_ORDER % a;
            let ghost t0 = t as int;
            proof {
                lemma_fundamental_div_mod(p, a as int);
                assert(!divides(a as int, p));
                assert(q * t <= 0x7800_0001 * 0x7800_0001) by (nonlinear_arith)
                    requires
                        0 <= q <= 0x7800_0001,
                        0 <= t <= 0x7800_0001,
                ;
            }
            let m: u64 = (q as u64 * t as u64) % (BABY_BEAR_ORDER as u64);
            t = if m == 0 {
                0
            } else {
                BABY_BEAR_ORDER - m as u32
            };
            proof {
                assert(red(t as int, p) == red(-q * t0, p)) by {
                    reveal(red);
                    lemma_fundamental_div_mod(q * t0, p);
                    assert(-q * t0 == -(q * t0)) by (nonlinear_arith);
                    let k = (q * t0) / p;
                    if m == 0 {
                        assert(-q * t0 == 0 + (-k) * p) by (nonlinear_arith)
                            requires
                                q * t0 == p * k,
                                -q * t0 == -(q * t0),
                        ;
                        lemma_red_shift(0, -k, p);
                    } else {
                        assert(-q * t0 == t + (-k - 1) * p) by (nonlinear_arith)
                            requires
                                q * t0 == p * k + m,
                                -q * t0 == -(q * t0),
                                t == p - m,
                        ;
                        lemma_red_shift(t as int, -k - 1, p);
                    }
                }
                // a0 * t == -q * (a0 * t0) == -q * a == r
                lemma_red_mul(a0, t as int, p);
                lemma_red_mul(a0, -q * t0, p);
                assert(a0 * (-q * t0) == -q * (a0 * t0)) by (nonlinear_arith);
                lemma_red_mul(-q as int, a0 * t0, p);
                lemma_red_mul(-q as int, a as int, p);
                lemma_red_small(a as int, p);
                assert(-q * a == r + (-1) * p) by (nonlinear_arith)
                    requires
                        p == a * q + r,
                ;
                lemma_red_shift(r as int, -1, p);
                lemma_red_small(r as int, p);
            }
            a = r;
        }
        proof {
            lemma_red_small(t as int, p);
            assert(crate::field::number_theory::is_inverse(p, a0, t as int));
        }
        BabyBear { value: t }
    }
}

} // verus!
