//! The constraints of the arithmetic and logic chip hold exactly on correct rows.
use crate::air::{all_hold, all_zero, byte_vals, red_sends, LookupRequest};
use crate::field::number_theory::{
    finv, is_inverse, is_prime, lemma_euclid, lemma_inverse, lemma_red_add_right, lemma_red_bool,
    lemma_red_eq, lemma_red_mul_right, lemma_red_range, lemma_red_shift, lemma_red_small,
    lemma_red_zero_small, lemma_undo_inverse, red,
};
use crate::instructions::BaseAluOpcode;
use crate::limbs::{
    le_bytes, le_value, lemma_le_round_trip, lemma_limb_base, lemma_limbs_value_bound,
    lemma_limbs_value_le, limb_base, limbs_in_range, limbs_value,
};
use crate::rv32im::base_alu::arithmetic::{
    add_carry, add_limbs, alu_limbs, and_limbs, lemma_add_carry_range, or_limbs, sub_borrow,
    sub_defined, sub_limbs, xor_limbs,
};
use crate::rv32im::base_alu::columns::BaseAluRow;
use crate::rv32im::base_alu::execute::alu_value;
use crate::rv32im::base_alu::step::alu_requests;
use vstd::arithmetic::div_mod::*;
use vstd::arithmetic::mul::*;
use vstd::arithmetic::power::*;
use vstd::arithmetic::power2::*;
use vstd::bits::*;
use vstd::prelude::*;

verus! {

impl BaseAluRow {
    /// Every value is a canonical value of the field of order `p`, and there are `n` limbs.
    pub open spec fn canonical(self, n: int, p: int) -> bool {
        &&& self.a.len() == n
        &&& self.b.len() == n
        &&& self.c.len() == n
        &&& forall|i: int| 0 <= i < n ==> 0 <= #[trigger] self.a[i] < p
        &&& 0 <= self.add < p
        &&& 0 <= self.sub < p
        &&& 0 <= self.xor < p
        &&& 0 <= self.or < p
        &&& 0 <= self.and < p
    }
}

proof fn lemma_constraint_at(row: BaseAluRow, inv: int, n: int, i: int, p: int)
    requires
        0 <= i < n,
        all_zero(row.carry_constraints(inv, n), p),
    ensures
        red(row.add * (row.carry_add(inv, i) * (row.carry_add(inv, i) - 1)), p) == 0,
        red(row.sub * (row.carry_sub(inv, i) * (row.carry_sub(inv, i) - 1)), p) == 0,
        all_zero(row.carry_constraints(inv, n - 1), p),
    decreases n,
{
    let s = row.carry_constraints(inv, n);
    let t = row.carry_constraints(inv, n - 1);
    let k = t.len() as int;
    assert(red(s[k], p) == 0);
    assert(red(s[k + 1], p) == 0);
    assert forall|j: int| 0 <= j < t.len() implies red(#[trigger] t[j], p) == 0 by {
        assert(s[j] == t[j]);
    }
    if i < n - 1 {
        lemma_constraint_at(row, inv, n - 1, i, p);
    }
}

/// Exactly one flag of a valid row is one.
proof fn lemma_flags(row: BaseAluRow, n: int, p: int) -> (op: BaseAluOpcode)
    requires
        is_prime(p),
        p > 4,
        row.canonical(n, p),
        all_zero(row.flag_constraints(), p),
        red(row.is_valid(), p) != 0,
    ensures
        row.selects(op),
{
    let s = row.flag_constraints();
    assert(red(s[0], p) == 0);
    assert(red(s[1], p) == 0);
    assert(red(s[2], p) == 0);
    assert(red(s[3], p) == 0);
    assert(red(s[4], p) == 0);
    assert(red(s[5], p) == 0);
    lemma_red_bool(row.add, p);
    lemma_red_bool(row.sub, p);
    lemma_red_bool(row.xor, p);
    lemma_red_bool(row.or, p);
    lemma_red_bool(row.and, p);
    lemma_red_bool(row.is_valid(), p);
    lemma_red_small(0, p);
    if row.is_valid() < p {
        lemma_red_small(row.is_valid(), p);
    } else {
        lemma_red_shift(0, 1, p);
    }
    if row.add == 1 {
        BaseAluOpcode::ADD
    } else if row.sub == 1 {
        BaseAluOpcode::SUB
    } else if row.xor == 1 {
        BaseAluOpcode::XOR
    } else if row.or == 1 {
        BaseAluOpcode::OR
    } else {
        BaseAluOpcode::AND
    }
}

/// A digit `a` and a residue `r` that is zero or one, with `base * r` congruent to `t - a`, are
/// remainder and quotient of `t`.
proof fn lemma_digit(p: int, base: int, inv: int, t: int, a: int, prev: int, prev_poly: int)
    requires
        is_prime(p),
        2 <= 2 * base <= p,
        is_inverse(p, base, inv),
        0 <= a < base,
        0 <= prev <= 1,
        prev == red(prev_poly, p),
        0 <= t <= 2 * base - 2,
        red(inv * (t - a + prev_poly), p) == 0 || red(inv * (t - a + prev_poly), p) == 1,
    ensures
        t + prev == a + base * red(inv * (t - a + prev_poly), p),
{
    let r = red(inv * (t - a + prev_poly), p);
    lemma_undo_inverse(p, base, inv, t - a + prev_poly);
    lemma_red_add_right(t - a, prev_poly, p);
    lemma_red_eq(t - a + prev, base * r, p);
    assert(r == 0 ==> base * r == 0);
    assert(r == 1 ==> base * r == base);
    lemma_red_zero_small(t - a + prev - base * r, p);
}

proof fn lemma_sound_add(row: BaseAluRow, b: Seq<u8>, c: Seq<u8>, base: int, inv: int, p: int, i: int)
    requires
        is_prime(p),
        2 <= 2 * base <= p,
        base <= 256,
        is_inverse(p, base, inv),
        b.len() == c.len(),
        row.b == byte_vals(b),
        row.c == byte_vals(c),
        row.add == 1,
        limbs_in_range(b, base),
        limbs_in_range(c, base),
        forall|j: int| 0 <= j < b.len() ==> 0 <= #[trigger] row.a[j] < base,
        all_zero(row.carry_constraints(inv, b.len() as int), p),
        -1 <= i < b.len(),
    ensures
        red(row.carry_add(inv, i), p) == add_carry(b, c, base, i + 1),
        0 <= i ==> row.a[i] == (b[i] + c[i] + add_carry(b, c, base, i)) % base,
    decreases i + 1,
{
    lemma_add_carry_range(b, c, base, i + 1);
    if i < 0 {
        lemma_red_small(0, p);
    } else {
        lemma_sound_add(row, b, c, base, inv, p, i - 1);
        lemma_add_carry_range(b, c, base, i);
        lemma_constraint_at(row, inv, b.len() as int, i, p);
        let x = row.carry_add(inv, i);
        lemma_red_bool(x, p);
        let t = b[i] + c[i];
        let prev = add_carry(b, c, base, i);
        assert(row.b[i] + row.c[i] - row.a[i] == t - row.a[i]);
        lemma_digit(p, base, inv, t, row.a[i], prev, row.carry_add(inv, i - 1));
        let r = red(x, p);
        assert(r == 0 ==> base * r == 0);
        assert(r == 1 ==> base * r == base);
        lemma_fundamental_div_mod_converse(t + prev, base, r, row.a[i]);
    }
}

proof fn lemma_sound_sub(row: BaseAluRow, b: Seq<u8>, c: Seq<u8>, base: int, inv: int, p: int, i: int)
    requires
        is_prime(p),
        2 <= 2 * base <= p,
        base <= 256,
        is_inverse(p, base, inv),
        b.len() == c.len(),
        row.b == byte_vals(b),
        row.c == byte_vals(c),
        row.sub == 1,
        limbs_in_range(b, base),
        limbs_in_range(c, base),
        forall|j: int| 0 <= j < b.len() ==> 0 <= #[trigger] row.a[j] < base,
        all_zero(row.carry_constraints(inv, b.len() as int), p),
        -1 <= i < b.len(),
    ensures
        red(row.carry_sub(inv, i), p) == sub_borrow(b, c, i + 1),
        0 <= i ==> row.a[i] == sub_limbs(b, c, base)[i],
    decreases i + 1,
{
    if i < 0 {
        lemma_red_small(0, p);
    } else {
        lemma_sound_sub(row, b, c, base, inv, p, i - 1);
        lemma_constraint_at(row, inv, b.len() as int, i, p);
        let x = row.carry_sub(inv, i);
        lemma_red_bool(x, p);
        let prev = sub_borrow(b, c, i);
        assert(row.a[i] + row.c[i] - row.b[i] == row.a[i] + c[i] - b[i]);
        lemma_digit(p, base, inv, row.a[i] + c[i], b[i] as int, prev, row.carry_sub(inv, i - 1));
        let r = red(x, p);
        assert(r == 0 ==> base * r == 0);
        assert(r == 1 ==> base * r == base);
    }
}

proof fn lemma_bitwise(x: u8, y: u8)
    ensures
        x + y + (x ^ y) == 2 * (x | y),
        x + y - (x ^ y) == 2 * (x & y),
{
    assert(x + y + (x ^ y) == 2 * (x | y)) by (bit_vector);
    assert(x + y - (x ^ y) == 2 * (x & y)) by (bit_vector);
}

/// Twice a residue determines the residue.
proof fn lemma_halve(p: int, x: int, y: int)
    requires
        is_prime(p),
        p > 2,
        0 <= x < p,
        0 <= y < p,
        red(2 * x - 2 * y, p) == 0,
    ensures
        x == y,
{
    assert(2 * x - 2 * y == 2 * (x - y));
    lemma_euclid(p, 2, x - y);
    lemma_red_small(2, p);
    lemma_red_zero_small(x - y, p);
}

/// The constraints of a row that is valid admit only the result of the operation that its flags
/// select: on limbs `b` and `c`, the row holds one opcode and the limbs that it yields.
pub proof fn law_alu_sound(row: BaseAluRow, b: Seq<u8>, c: Seq<u8>, limb_bits: usize, p: int) -> (op:
    BaseAluOpcode)
    requires
        is_prime(p),
        limb_bits <= 8,
        2 * limb_base(limb_bits) <= p,
        p > 4,
        b.len() == c.len(),
        row.canonical(b.len() as int, p),
        row.b == byte_vals(b),
        row.c == byte_vals(c),
        limbs_in_range(b, limb_base(limb_bits)),
        limbs_in_range(c, limb_base(limb_bits)),
        all_zero(row.constraints(finv(p, limb_base(limb_bits)), b.len() as int), p),
        all_hold(row.sends(b.len() as int), p, limb_base(limb_bits)),
        red(row.is_valid(), p) != 0,
    ensures
        row.selects(op),
        row.a == byte_vals(alu_limbs(op, b, c, limb_base(limb_bits))),
        red(row.is_valid(), p) == 1,
        row.local_opcode() == op.index(),
{
    let base = limb_base(limb_bits);
    let n = b.len() as int;
    let inv = finv(p, base);
    lemma_limb_base(limb_bits);
    lemma_red_small(base, p);
    lemma_inverse(p, base);
    let s = row.constraints(inv, n);
    assert forall|j: int| 0 <= j < 6 implies red(#[trigger] row.flag_constraints()[j], p) == 0 by {
        assert(s[j] == row.flag_constraints()[j]);
    }
    assert forall|j: int| 0 <= j < row.carry_constraints(inv, n).len() implies red(
        #[trigger] row.carry_constraints(inv, n)[j],
        p,
    ) == 0 by {
        assert(s[j + 6] == row.carry_constraints(inv, n)[j]);
    }
    let op = lemma_flags(row, n, p);
    lemma_red_small(1, p);
    let limbs = alu_limbs(op, b, c, base);
    assert forall|i: int| 0 <= i < n implies #[trigger] row.a[i] == limbs[i] by {
        let send = row.sends(n)[i];
        assert(send.reduced(p).holds(base));
        assert(send == row.send(i));
        let (x, y, z) = (row.a[i], b[i], c[i]);
        lemma_bitwise(y, z);
        if op == BaseAluOpcode::ADD || op == BaseAluOpcode::SUB {
            assert forall|j: int| 0 <= j < n implies 0 <= #[trigger] row.a[j] < base by {
                let sj = row.sends(n)[j];
                assert(sj.reduced(p).holds(base));
                assert(sj == row.send(j));
                assert(sj.x == row.a[j]) by (nonlinear_arith)
                    requires
                        sj.x == (1 - row.bitwise()) * row.a[j] + row.bitwise() * row.b[j],
                        row.bitwise() == 0,
                ;
                lemma_red_small(row.a[j], p);
            }
            if op == BaseAluOpcode::ADD {
                lemma_sound_add(row, b, c, base, inv, p, i);
                lemma_add_carry_range(b, c, base, i);
                lemma_mod_bound(y + z + add_carry(b, c, base, i), base);
            } else {
                lemma_sound_sub(row, b, c, base, inv, p, i);
            }
        } else {
            assert(send.x == y && send.y == z) by (nonlinear_arith)
                requires
                    send.x == (1 - row.bitwise()) * x + row.bitwise() * y,
                    send.y == (1 - row.bitwise()) * x + row.bitwise() * z,
                    row.bitwise() == 1,
            ;
            lemma_red_small(y as int, p);
            lemma_red_small(z as int, p);
            let w = (y ^ z) as int;
            assert(((y as int) as u32) ^ ((z as int) as u32) == w);
            assert(red(send.z, p) == w);
            lemma_red_range(send.z, p);
            lemma_red_small(w, p);
            if op == BaseAluOpcode::XOR {
                assert(send.z == x);
                lemma_red_small(x, p);
            } else if op == BaseAluOpcode::OR {
                assert(send.z == 2 * x - y - z);
                lemma_red_eq(send.z, w, p);
                lemma_halve(p, x, (y | z) as int);
            } else {
                assert(send.z == y + z - 2 * x);
                lemma_red_eq(w, send.z, p);
                lemma_halve(p, x, (y & z) as int);
            }
        }
    }
    assert(row.a =~= byte_vals(limbs));
    op
}

/// Dividing a multiple of `base` gives the factor back.
proof fn lemma_divide(p: int, base: int, inv: int, t: int, prev_poly: int, prev: int, r: int)
    requires
        p > 0,
        is_inverse(p, base, inv),
        red(prev_poly, p) == prev,
        t + prev == base * r,
        0 <= r < p,
    ensures
        red(inv * (t + prev_poly), p) == r,
{
    lemma_red_add_right(t, prev_poly, p);
    lemma_red_mul_right(inv, t + prev_poly, p);
    lemma_red_mul_right(inv, t + prev, p);
    assert(inv * (base * r) == r * (base * inv)) by (nonlinear_arith);
    lemma_red_mul_right(r, base * inv, p);
    lemma_red_small(r, p);
}

proof fn lemma_complete_add(row: BaseAluRow, b: Seq<u8>, c: Seq<u8>, base: int, inv: int, p: int, i: int)
    requires
        2 <= 2 * base <= p,
        base <= 256,
        is_inverse(p, base, inv),
        b.len() == c.len(),
        row.a == byte_vals(add_limbs(b, c, base)),
        row.b == byte_vals(b),
        row.c == byte_vals(c),
        limbs_in_range(b, base),
        limbs_in_range(c, base),
        -1 <= i < b.len(),
    ensures
        red(row.carry_add(inv, i), p) == add_carry(b, c, base, i + 1),
    decreases i + 1,
{
    lemma_add_carry_range(b, c, base, i + 1);
    if i < 0 {
        lemma_red_small(0, p);
    } else {
        lemma_complete_add(row, b, c, base, inv, p, i - 1);
        lemma_add_carry_range(b, c, base, i);
        let t = b[i] + c[i];
        let prev = add_carry(b, c, base, i);
        lemma_fundamental_div_mod(t + prev, base);
        lemma_mod_bound(t + prev, base);
        let r = (t + prev) / base;
        assert(0 <= r <= 1) by (nonlinear_arith)
            requires
                t + prev == base * r + (t + prev) % base,
                0 <= (t + prev) % base < base,
                0 <= t + prev < 2 * base,
        ;
        lemma_divide(p, base, inv, t - row.a[i], row.carry_add(inv, i - 1), prev, r);
    }
}

proof fn lemma_complete_sub(row: BaseAluRow, b: Seq<u8>, c: Seq<u8>, base: int, inv: int, p: int, i: int)
    requires
        2 <= 2 * base <= p,
        base <= 256,
        is_inverse(p, base, inv),
        b.len() == c.len(),
        row.a == byte_vals(sub_limbs(b, c, base)),
        row.b == byte_vals(b),
        row.c == byte_vals(c),
        limbs_in_range(b, base),
        limbs_in_range(c, base),
        -1 <= i < b.len(),
    ensures
        red(row.carry_sub(inv, i), p) == sub_borrow(b, c, i + 1),
    decreases i + 1,
{
    if i < 0 {
        lemma_red_small(0, p);
    } else {
        lemma_complete_sub(row, b, c, base, inv, p, i - 1);
        let prev = sub_borrow(b, c, i);
        let r = sub_borrow(b, c, i + 1);
        assert(r == 0 ==> base * r == 0);
        assert(r == 1 ==> base * r == base);
        lemma_divide(
            p,
            base,
            inv,
            row.a[i] + row.c[i] - row.b[i],
            row.carry_sub(inv, i - 1),
            prev,
            r,
        );
    }
}

/// Flags of which at most one is one satisfy the flag constraints.
proof fn lemma_flags_hold(row: BaseAluRow)
    requires
        0 <= row.add,
        0 <= row.sub,
        0 <= row.xor,
        0 <= row.or,
        0 <= row.and,
        row.is_valid() <= 1,
    ensures
        forall|j: int| 0 <= j < 6 ==> #[trigger] row.flag_constraints()[j] == 0,
{
    let f = |x: int| 0 <= x <= 1;
    assert forall|x: int| #[trigger] f(x) implies x * (x - 1) == 0 by {
        assert(x == 0 || x == 1);
    }
    assert(f(row.add) && f(row.sub) && f(row.xor) && f(row.or) && f(row.and) && f(row.is_valid()));
}

/// Carries that are zero or one satisfy the carry constraints.
proof fn lemma_carries_hold(row: BaseAluRow, inv: int, n: int, p: int)
    requires
        p > 1,
        0 <= n,
        forall|i: int|
            0 <= i < n ==> row.add == 0 || 0 <= red(#[trigger] row.carry_add(inv, i), p) <= 1,
        forall|i: int|
            0 <= i < n ==> row.sub == 0 || 0 <= red(#[trigger] row.carry_sub(inv, i), p) <= 1,
    ensures
        all_zero(row.carry_constraints(inv, n), p),
    decreases n,
{
    if n > 0 {
        lemma_carries_hold(row, inv, n - 1, p);
        lemma_bool_holds(row.add, row.carry_add(inv, n - 1), p);
        lemma_bool_holds(row.sub, row.carry_sub(inv, n - 1), p);
    }
}

proof fn lemma_bool_holds(f: int, x: int, p: int)
    requires
        p > 1,
        f == 0 || 0 <= red(x, p) <= 1,
    ensures
        red(f * (x * (x - 1)), p) == 0,
{
    lemma_red_small(0, p);
    if f != 0 {
        if red(x, p) == 0 {
            lemma_red_mul_right(f * (x - 1), x, p);
        } else {
            lemma_red_small(1, p);
            lemma_red_eq(x, 1, p);
            lemma_red_mul_right(f * x, x - 1, p);
        }
        assert(f * (x * (x - 1)) == f * (x - 1) * x) by (nonlinear_arith);
        assert(f * (x * (x - 1)) == f * x * (x - 1)) by (nonlinear_arith);
    } else {
        assert(f * (x * (x - 1)) == 0) by (nonlinear_arith)
            requires
                f == 0,
        ;
    }
}

/// The limbs that an operation yields on limbs are limbs.
pub proof fn lemma_alu_limbs_in_range(op: BaseAluOpcode, b: Seq<u8>, c: Seq<u8>, limb_bits: usize)
    requires
        limb_bits <= 8,
        b.len() == c.len(),
        limbs_in_range(b, limb_base(limb_bits)),
        limbs_in_range(c, limb_base(limb_bits)),
    ensures
        limbs_in_range(alu_limbs(op, b, c, limb_base(limb_bits)), limb_base(limb_bits)),
        alu_limbs(op, b, c, limb_base(limb_bits)).len() == b.len(),
{
    let base = limb_base(limb_bits);
    lemma_limb_base(limb_bits);
    let limbs = alu_limbs(op, b, c, base);
    assert forall|i: int| 0 <= i < limbs.len() implies #[trigger] limbs[i] < base by {
        let (x, y) = (b[i], c[i]);
        match op {
            BaseAluOpcode::ADD => {
                lemma_add_carry_range(b, c, base, i);
                lemma_mod_bound(x + y + add_carry(b, c, base, i), base);
            },
            BaseAluOpcode::SUB => {},
            _ => {
                lemma_bits_in_range(x, y, limb_bits);
            },
        }
    }
}

proof fn lemma_bits_in_range(x: u8, y: u8, limb_bits: usize)
    requires
        limb_bits <= 8,
        x < limb_base(limb_bits),
        y < limb_base(limb_bits),
    ensures
        x ^ y < limb_base(limb_bits),
        x | y < limb_base(limb_bits),
        x & y < limb_base(limb_bits),
{
    lemma2_to64();
    let k = limb_bits as u16;
    let base: u16 = 1u16 << k;
    lemma_u16_shl_is_mul(1, k);
    lemma_limb_base(limb_bits);
    assert((x as u16) < base && (y as u16) < base);
    assert(((x ^ y) as u16) < base && ((x | y) as u16) < base && ((x & y) as u16) < base)
        by (bit_vector)
        requires
            k <= 8,
            base == 1u16 << k,
            (x as u16) < base,
            (y as u16) < base,
    ;
}

/// A row that holds an operation on limbs and its result satisfies all constraints, and sends
/// exactly the lookups that the trace generator requests, each once, all of them in the table.
pub proof fn law_alu_complete(
    row: BaseAluRow,
    op: BaseAluOpcode,
    b: Seq<u8>,
    c: Seq<u8>,
    limb_bits: usize,
    p: int,
)
    requires
        is_prime(p),
        limb_bits <= 8,
        2 * limb_base(limb_bits) <= p,
        b.len() == c.len(),
        limbs_in_range(b, limb_base(limb_bits)),
        limbs_in_range(c, limb_base(limb_bits)),
        row.selects(op),
        row.a == byte_vals(alu_limbs(op, b, c, limb_base(limb_bits))),
        row.b == byte_vals(b),
        row.c == byte_vals(c),
    ensures
        all_zero(row.constraints(finv(p, limb_base(limb_bits)), b.len() as int), p),
        red_sends(row.sends(b.len() as int), p) == alu_requests(
            op,
            alu_limbs(op, b, c, limb_base(limb_bits)),
            b,
            c,
        ).map_values(|r: LookupRequest| r.as_send()),
        forall|i: int|
            0 <= i < b.len() ==> (#[trigger] alu_requests(
                op,
                alu_limbs(op, b, c, limb_base(limb_bits)),
                b,
                c,
            )[i]).in_table(limb_base(limb_bits)),
        row.is_valid() == 1,
        row.local_opcode() == op.index(),
{
    let base = limb_base(limb_bits);
    let n = b.len() as int;
    let inv = finv(p, base);
    lemma_limb_base(limb_bits);
    lemma_red_small(base, p);
    lemma_inverse(p, base);
    lemma_alu_limbs_in_range(op, b, c, limb_bits);
    lemma_red_small(0, p);
    lemma_red_small(1, p);
    let limbs = alu_limbs(op, b, c, base);
    if op == BaseAluOpcode::ADD {
        assert forall|i: int| 0 <= i < n implies 0 <= red(#[trigger] row.carry_add(inv, i), p)
            <= 1 by {
            lemma_complete_add(row, b, c, base, inv, p, i);
            lemma_add_carry_range(b, c, base, i + 1);
        }
    }
    if op == BaseAluOpcode::SUB {
        assert forall|i: int| 0 <= i < n implies 0 <= red(#[trigger] row.carry_sub(inv, i), p)
            <= 1 by {
            lemma_complete_sub(row, b, c, base, inv, p, i);
        }
    }
    lemma_carries_hold(row, inv, n, p);
    let s = row.constraints(inv, n);
    assert forall|j: int| 0 <= j < s.len() implies red(#[trigger] s[j], p) == 0 by {
        if j < 6 {
            lemma_flags_hold(row);
            assert(s[j] == row.flag_constraints()[j]);
        } else {
            assert(s[j] == row.carry_constraints(inv, n)[j - 6]);
        }
    }
    let requests = alu_requests(op, limbs, b, c);
    let matched = requests.map_values(|r: LookupRequest| r.as_send());
    assert forall|i: int| 0 <= i < n implies #[trigger] red_sends(row.sends(n), p)[i]
        == matched[i] by {
        let send = row.send(i);
        let (x, y, z) = (limbs[i], b[i], c[i]);
        assert(row.a[i] == x && row.b[i] == y && row.c[i] == z);
        lemma_red_small(x as int, p);
        lemma_red_small(y as int, p);
        lemma_red_small(z as int, p);
        lemma_bitwise(y, z);
        lemma_bits_in_range(y, z, limb_bits);
        lemma_red_small((y ^ z) as int, p);
        let w = x as u32;
        assert(w ^ w == 0) by (bit_vector);
        assert((y as u32) ^ (z as u32) == (y ^ z) as u32) by (bit_vector);
        if op == BaseAluOpcode::ADD || op == BaseAluOpcode::SUB {
            assert(send.x == x && send.y == x) by (nonlinear_arith)
                requires
                    send.x == (1 - row.bitwise()) * x + row.bitwise() * y,
                    send.y == (1 - row.bitwise()) * x + row.bitwise() * z,
                    row.bitwise() == 0,
            ;
            assert(send.z == 0);
        } else {
            assert(send.x == y && send.y == z) by (nonlinear_arith)
                requires
                    send.x == (1 - row.bitwise()) * x + row.bitwise() * y,
                    send.y == (1 - row.bitwise()) * x + row.bitwise() * z,
                    row.bitwise() == 1,
            ;
            assert(send.z == (y ^ z));
        }
    }
    assert(red_sends(row.sends(n), p) =~= matched);
}

/// A row of zeros is not valid; it satisfies all constraints and sends no lookup.
pub proof fn law_alu_padding(row: BaseAluRow, n: int, limb_bits: usize, p: int)
    requires
        is_prime(p),
        n >= 0,
        row.add == 0,
        row.sub == 0,
        row.xor == 0,
        row.or == 0,
        row.and == 0,
    ensures
        all_zero(row.constraints(finv(p, limb_base(limb_bits)), n), p),
        all_hold(row.sends(n), p, limb_base(limb_bits)),
        row.is_valid() == 0,
{
    let inv = finv(p, limb_base(limb_bits));
    lemma_red_small(0, p);
    lemma_carries_hold(row, inv, n, p);
    let s = row.constraints(inv, n);
    assert forall|j: int| 0 <= j < s.len() implies red(#[trigger] s[j], p) == 0 by {
        if j < 6 {
            lemma_flags_hold(row);
            assert(s[j] == row.flag_constraints()[j]);
        } else {
            assert(s[j] == row.carry_constraints(inv, n)[j - 6]);
        }
    }
}

/// The lowest `k` limbs of a sum of limbs, with the carry out of them, are the sum of the lowest
/// `k` limbs.
proof fn lemma_add_value(x: Seq<u8>, y: Seq<u8>, base: int, k: int)
    requires
        1 <= base <= 256,
        x.len() == y.len(),
        limbs_in_range(x, base),
        limbs_in_range(y, base),
        0 <= k <= x.len(),
    ensures
        limbs_value(add_limbs(x, y, base), base, k) + add_carry(x, y, base, k) * pow(base, k as nat)
            == limbs_value(x, base, k) + limbs_value(y, base, k),
    decreases k,
{
    lemma_pow0(base);
    if k > 0 {
        lemma_add_value(x, y, base, k - 1);
        lemma_add_carry_range(x, y, base, k - 1);
        lemma_add_carry_range(x, y, base, k);
        let w = pow(base, (k - 1) as nat);
        lemma_pow_adds(base, (k - 1) as nat, 1);
        lemma_pow1(base);
        let t = x[k - 1] + y[k - 1] + add_carry(x, y, base, k - 1);
        lemma_fundamental_div_mod(t, base);
        lemma_mod_bound(t, base);
        let q = t / base;
        let r = t % base;
        assert(0 <= q <= 1) by (nonlinear_arith)
            requires
                t == base * q + r,
                0 <= r < base,
                0 <= t < 2 * base,
        ;
        let (u, v, c) = (x[k - 1] as int, y[k - 1] as int, add_carry(x, y, base, k - 1));
        assert(r * w + q * (w * base) == u * w + v * w + c * w) by (nonlinear_arith)
            requires
                u + v + c == base * q + r,
        ;
    }
}

/// The same for a difference.
proof fn lemma_sub_value(x: Seq<u8>, y: Seq<u8>, base: int, k: int)
    requires
        1 <= base <= 256,
        x.len() == y.len(),
        limbs_in_range(x, base),
        limbs_in_range(y, base),
        0 <= k <= x.len(),
    ensures
        limbs_value(sub_limbs(x, y, base), base, k) == limbs_value(x, base, k) - limbs_value(
            y,
            base,
            k,
        ) + sub_borrow(x, y, k) * pow(base, k as nat),
    decreases k,
{
    lemma_pow0(base);
    if k > 0 {
        lemma_sub_value(x, y, base, k - 1);
        let w = pow(base, (k - 1) as nat);
        lemma_pow_adds(base, (k - 1) as nat, 1);
        lemma_pow1(base);
        let z = sub_limbs(x, y, base)[k - 1] as int;
        let (u, v) = (x[k - 1] as int, y[k - 1] as int);
        let (c, d) = (sub_borrow(x, y, k - 1), sub_borrow(x, y, k));
        assert(z == u - v - c + base * d) by {
            assert(d == 0 ==> base * d == 0);
            assert(d == 1 ==> base * d == base);
        }
        assert(z * w == u * w - v * w - c * w + d * (w * base)) by (nonlinear_arith)
            requires
                z == u - v - c + base * d,
        ;
    }
}

/// On limbs, addition and subtraction are those of the numbers that the limbs stand for, modulo
/// `base^n` for `n` limbs.
pub proof fn law_alu_value(x: Seq<u8>, y: Seq<u8>, limb_bits: usize)
    requires
        limb_bits <= 8,
        x.len() == y.len(),
        limbs_in_range(x, limb_base(limb_bits)),
        limbs_in_range(y, limb_base(limb_bits)),
    ensures
        ({
            let base = limb_base(limb_bits);
            let n = x.len() as int;
            let modulus = pow(base, n as nat);
            let (a, b) = (limbs_value(x, base, n), limbs_value(y, base, n));
            &&& limbs_value(alu_limbs(BaseAluOpcode::ADD, x, y, base), base, n) == (a + b)
                % modulus
            &&& limbs_value(alu_limbs(BaseAluOpcode::SUB, x, y, base), base, n) == (a - b)
                % modulus
        }),
{
    let base = limb_base(limb_bits);
    let n = x.len() as int;
    let modulus = pow(base, n as nat);
    lemma_limb_base(limb_bits);
    lemma_pow_positive(base, n as nat);
    lemma_alu_limbs_in_range(BaseAluOpcode::ADD, x, y, limb_bits);
    lemma_alu_limbs_in_range(BaseAluOpcode::SUB, x, y, limb_bits);
    lemma_limbs_value_bound(add_limbs(x, y, base), base, n);
    lemma_limbs_value_bound(sub_limbs(x, y, base), base, n);
    lemma_add_value(x, y, base, n);
    lemma_sub_value(x, y, base, n);
    let (a, b) = (limbs_value(x, base, n), limbs_value(y, base, n));
    let carry = add_carry(x, y, base, n);
    let borrow = sub_borrow(x, y, n);
    lemma_mul_is_commutative(carry, modulus);
    lemma_mul_is_commutative(borrow, modulus);
    lemma_fundamental_div_mod_converse(
        a + b,
        modulus,
        carry,
        limbs_value(add_limbs(x, y, base), base, n),
    );
    assert(a - b == modulus * (-borrow) + limbs_value(sub_limbs(x, y, base), base, n))
        by (nonlinear_arith)
        requires
            limbs_value(sub_limbs(x, y, base), base, n) == a - b + modulus * borrow,
    ;
    lemma_fundamental_div_mod_converse(
        a - b,
        modulus,
        -borrow,
        limbs_value(sub_limbs(x, y, base), base, n),
    );
}

/// Subtraction is defined on all limbs in range.
pub proof fn law_subtraction_defined(x: Seq<u8>, y: Seq<u8>, base: int)
    requires
        1 <= base,
        x.len() == y.len(),
        limbs_in_range(y, base),
    ensures
        sub_defined(x, y, base),
{
}

/// Subtracting from a sum borrows where the sum carried.
proof fn lemma_borrow_is_carry(x: Seq<u8>, y: Seq<u8>, base: int, i: int)
    requires
        1 <= base <= 256,
        x.len() == y.len(),
        limbs_in_range(x, base),
        limbs_in_range(y, base),
        0 <= i <= x.len(),
    ensures
        sub_borrow(add_limbs(x, y, base), y, i) == add_carry(x, y, base, i),
        i < x.len() ==> sub_limbs(add_limbs(x, y, base), y, base)[i] == x[i],
    decreases i,
{
    lemma_add_carry_range(x, y, base, i);
    if i > 0 {
        lemma_borrow_is_carry(x, y, base, i - 1);
        lemma_add_carry_range(x, y, base, i - 1);
        let t = x[i - 1] + y[i - 1] + add_carry(x, y, base, i - 1);
        lemma_below_twice(t, base);
    }
    if i < x.len() {
        lemma_below_twice(x[i] + y[i] + add_carry(x, y, base, i), base);
    }
}

/// Adding to a difference carries where the difference borrowed.
proof fn lemma_carry_is_borrow(x: Seq<u8>, y: Seq<u8>, base: int, i: int)
    requires
        1 <= base <= 256,
        x.len() == y.len(),
        limbs_in_range(x, base),
        limbs_in_range(y, base),
        0 <= i <= x.len(),
    ensures
        add_carry(sub_limbs(x, y, base), y, base, i) == sub_borrow(x, y, i),
        i < x.len() ==> add_limbs(sub_limbs(x, y, base), y, base)[i] == x[i],
    decreases i,
{
    let d = sub_limbs(x, y, base);
    if i > 0 {
        lemma_carry_is_borrow(x, y, base, i - 1);
        lemma_below_twice(d[i - 1] + y[i - 1] + add_carry(d, y, base, i - 1), base);
    }
    if i < x.len() {
        lemma_below_twice(d[i] + y[i] + add_carry(d, y, base, i), base);
    }
}

/// Quotient and remainder of a number below twice the base.
proof fn lemma_below_twice(t: int, base: int)
    requires
        1 <= base,
        0 <= t < 2 * base,
    ensures
        t / base == (if t < base { 0int } else { 1 }),
        t % base == (if t < base { t } else { t - base }),
{
    if t < base {
        lemma_fundamental_div_mod_converse(t, base, 0, t);
    } else {
        lemma_fundamental_div_mod_converse(t, base, 1, t - base);
    }
}

/// Subtraction undoes addition, and addition undoes subtraction.
pub proof fn law_subtraction_undoes_addition(x: Seq<u8>, y: Seq<u8>, limb_bits: usize)
    requires
        limb_bits <= 8,
        x.len() == y.len(),
        limbs_in_range(x, limb_base(limb_bits)),
        limbs_in_range(y, limb_base(limb_bits)),
    ensures
        ({
            let base = limb_base(limb_bits);
            let sum = alu_limbs(BaseAluOpcode::ADD, x, y, base);
            let difference = alu_limbs(BaseAluOpcode::SUB, x, y, base);
            &&& sub_defined(sum, y, base)
            &&& alu_limbs(BaseAluOpcode::SUB, sum, y, base) == x
            &&& alu_limbs(BaseAluOpcode::ADD, difference, y, base) == x
        }),
{
    let base = limb_base(limb_bits);
    lemma_limb_base(limb_bits);
    law_subtraction_defined(add_limbs(x, y, base), y, base);
    assert forall|i: int| 0 <= i < x.len() implies {
        &&& sub_limbs(add_limbs(x, y, base), y, base)[i] == #[trigger] x[i]
        &&& add_limbs(sub_limbs(x, y, base), y, base)[i] == x[i]
    } by {
        lemma_borrow_is_carry(x, y, base, i);
        lemma_carry_is_borrow(x, y, base, i);
    }
    assert(sub_limbs(add_limbs(x, y, base), y, base) =~= x);
    assert(add_limbs(sub_limbs(x, y, base), y, base) =~= x);
}

proof fn lemma_bitwise_bytes(x: u32, y: u32)
    ensures
        le_bytes(x ^ y) == xor_limbs(le_bytes(x), le_bytes(y)),
        le_bytes(x | y) == or_limbs(le_bytes(x), le_bytes(y)),
        le_bytes(x & y) == and_limbs(le_bytes(x), le_bytes(y)),
{
    assert((x ^ y) % 256 == (x % 256) ^ (y % 256) && ((x ^ y) / 256) % 256 == ((x / 256) % 256) ^ ((
    y / 256) % 256) && ((x ^ y) / 0x1_0000) % 256 == ((x / 0x1_0000) % 256) ^ ((y / 0x1_0000)
        % 256) && (x ^ y) / 0x100_0000 == (x / 0x100_0000) ^ (y / 0x100_0000)) by (bit_vector);
    assert((x | y) % 256 == (x % 256) | (y % 256) && ((x | y) / 256) % 256 == ((x / 256) % 256) | ((
    y / 256) % 256) && ((x | y) / 0x1_0000) % 256 == ((x / 0x1_0000) % 256) | ((y / 0x1_0000)
        % 256) && (x | y) / 0x100_0000 == (x / 0x100_0000) | (y / 0x100_0000)) by (bit_vector);
    assert((x & y) % 256 == (x % 256) & (y % 256) && ((x & y) / 256) % 256 == ((x / 256) % 256) & ((
    y / 256) % 256) && ((x & y) / 0x1_0000) % 256 == ((x / 0x1_0000) % 256) & ((y / 0x1_0000)
        % 256) && (x & y) / 0x100_0000 == (x / 0x100_0000) & (y / 0x100_0000)) by (bit_vector);
    assert(le_bytes(x ^ y) =~= xor_limbs(le_bytes(x), le_bytes(y)));
    assert(le_bytes(x | y) =~= or_limbs(le_bytes(x), le_bytes(y)));
    assert(le_bytes(x & y) =~= and_limbs(le_bytes(x), le_bytes(y)));
}

/// Execution on registers and trace generation on bytes agree: the bytes of the result on `x` and
/// `y` are the limbs that the operation yields on the bytes of `x` and `y`.
pub proof fn law_alu_modes_agree(op: BaseAluOpcode, x: u32, y: u32)
    ensures
        le_bytes(alu_value(op, x, y)) == alu_limbs(op, le_bytes(x), le_bytes(y), limb_base(8)),
{
    let (a, b) = (le_bytes(x), le_bytes(y));
    lemma_limb_base(8);
    lemma_bitwise_bytes(x, y);
    if op == BaseAluOpcode::ADD || op == BaseAluOpcode::SUB {
        let limbs = alu_limbs(op, a, b, 256);
        law_alu_value(a, b, 8);
        lemma_alu_limbs_in_range(op, a, b, 8);
        lemma_limbs_value_le(a);
        lemma_limbs_value_le(b);
        lemma_limbs_value_le(limbs);
        lemma_le_round_trip(x, a);
        lemma_le_round_trip(y, b);
        lemma_le_round_trip(x, limbs);
        assert(le_value(limbs) == alu_value(op, x, y));
    }
}

} // verus!
