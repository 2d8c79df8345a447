//! The constraints of the field arithmetic chip hold exactly on correct rows.
use crate::air::all_zero;
use crate::field::number_theory::{
    finv, is_inverse, is_prime, lemma_inverse, lemma_red_bool, lemma_red_eq, lemma_red_range,
    lemma_red_small, red,
};
use crate::instructions::FieldArithmeticOpcode;
use crate::native::field_arithmetic::chip::{field_result, FieldArithmeticRow};
use vstd::prelude::*;

verus! {

impl FieldArithmeticRow {
    /// Every value is a canonical value of the field of order `p`.
    pub open spec fn canonical(self, p: int) -> bool {
        &&& 0 <= self.a < p
        &&& 0 <= self.b < p
        &&& 0 <= self.c < p
        &&& 0 <= self.add < p
        &&& 0 <= self.sub < p
        &&& 0 <= self.mul < p
        &&& 0 <= self.div < p
        &&& 0 <= self.inv < p
    }
}

/// The expected result of a row whose flags select `op`.
proof fn lemma_expected(row: FieldArithmeticRow, op: FieldArithmeticOpcode)
    requires
        row.selects(op),
    ensures
        row.expected() == (match op {
            FieldArithmeticOpcode::ADD => row.b + row.c,
            FieldArithmeticOpcode::SUB => row.b - row.c,
            FieldArithmeticOpcode::MUL => row.b * row.c,
            FieldArithmeticOpcode::DIV => row.b * row.inv,
        }),
{
    lemma_flag(row.add, row.b + row.c);
    lemma_flag(row.sub, row.b - row.c);
    lemma_flag(row.mul, row.b * row.c);
    lemma_flag(row.div, row.b * row.inv);
}

proof fn lemma_flag(f: int, x: int)
    requires
        f == 0 || f == 1,
    ensures
        f * x == (if f == 1 { x } else { 0 }),
        f * (f - 1) == 0,
{
    assert(f == 1 ==> f * x == x) by (nonlinear_arith);
    assert(f == 0 ==> f * x == 0) by (nonlinear_arith);
    assert(f * (f - 1) == 0) by (nonlinear_arith)
        requires
            f == 0 || f == 1,
    ;
}

/// The constraints of a valid row admit only the result of the operation that its flags select,
/// and a division only by an element other than zero.
pub proof fn law_field_arithmetic_sound(row: FieldArithmeticRow, p: int) -> (op:
    FieldArithmeticOpcode)
    requires
        is_prime(p),
        p > 4,
        row.canonical(p),
        all_zero(row.constraints(), p),
        red(row.is_valid(), p) != 0,
    ensures
        row.selects(op),
        op == FieldArithmeticOpcode::DIV ==> row.c != 0,
        row.a == field_result(op, row.b, row.c, p),
        row.local_opcode() == op.index(),
        row.is_valid() == 1,
{
    let s = row.constraints();
    assert(red(s[0], p) == 0);
    assert(red(s[1], p) == 0);
    assert(red(s[2], p) == 0);
    assert(red(s[3], p) == 0);
    assert(red(s[4], p) == 0);
    assert(red(s[5], p) == 0);
    assert(red(s[6], p) == 0);
    lemma_red_bool(row.add, p);
    lemma_red_bool(row.sub, p);
    lemma_red_bool(row.mul, p);
    lemma_red_bool(row.div, p);
    lemma_red_bool(row.is_valid(), p);
    lemma_red_small(0, p);
    lemma_red_small(1, p);
    let op = if row.add == 1 {
        FieldArithmeticOpcode::ADD
    } else if row.sub == 1 {
        FieldArithmeticOpcode::SUB
    } else if row.mul == 1 {
        FieldArithmeticOpcode::MUL
    } else {
        FieldArithmeticOpcode::DIV
    };
    lemma_expected(row, op);
    lemma_red_eq(row.a, row.expected(), p);
    lemma_red_small(row.a, p);
    if op == FieldArithmeticOpcode::DIV {
        lemma_red_eq(1, row.c * row.inv, p);
        assert(row.c == 0 ==> row.c * row.inv == 0) by (nonlinear_arith);
        lemma_red_small(row.c, p);
        lemma_inverse(p, row.c);
        assert(is_inverse(p, row.c, row.inv));
    }
    op
}

/// A row that holds an operation, its operands and its result satisfies all constraints.
pub proof fn law_field_arithmetic_complete(
    row: FieldArithmeticRow,
    op: FieldArithmeticOpcode,
    p: int,
)
    requires
        is_prime(p),
        row.canonical(p),
        row.selects(op),
        op == FieldArithmeticOpcode::DIV ==> row.c != 0,
        row.a == field_result(op, row.b, row.c, p),
        row.inv == (if op == FieldArithmeticOpcode::DIV { finv(p, row.c) } else { 0 }),
    ensures
        all_zero(row.constraints(), p),
        row.local_opcode() == op.index(),
        row.is_valid() == 1,
{
    lemma_red_small(0, p);
    lemma_red_small(1, p);
    lemma_expected(row, op);
    lemma_flag(row.add, 0);
    lemma_flag(row.sub, 0);
    lemma_flag(row.mul, 0);
    lemma_flag(row.div, 0);
    lemma_red_range(row.expected(), p);
    lemma_red_small(row.a, p);
    lemma_red_eq(row.a, row.expected(), p);
    if op == FieldArithmeticOpcode::DIV {
        lemma_red_small(row.c, p);
        lemma_inverse(p, row.c);
        lemma_red_eq(1, row.c * row.inv, p);
    } else {
        assert(row.c * row.inv == 0) by (nonlinear_arith)
            requires
                row.inv == 0,
        ;
    }
    let s = row.constraints();
    assert(s[5] == 0);
    assert forall|j: int| 0 <= j < s.len() implies red(#[trigger] s[j], p) == 0 by {
        assert(j == 0 || j == 1 || j == 2 || j == 3 || j == 4 || j == 5 || j == 6);
    }
}

/// A row whose flags, result and inverse are zero is not valid and satisfies all constraints.
pub proof fn law_field_arithmetic_padding(row: FieldArithmeticRow, p: int)
    requires
        is_prime(p),
        row.a == 0,
        row.add == 0,
        row.sub == 0,
        row.mul == 0,
        row.div == 0,
        row.inv == 0,
    ensures
        all_zero(row.constraints(), p),
        row.is_valid() == 0,
{
    lemma_red_small(0, p);
    lemma_flag(row.add, row.b + row.c);
    lemma_flag(row.sub, row.b - row.c);
    lemma_flag(row.mul, row.b * row.c);
    lemma_flag(row.div, row.b * row.inv);
    assert(row.c * row.inv == 0) by (nonlinear_arith)
        requires
            row.inv == 0,
    ;
    let s = row.constraints();
    assert(row.is_valid() == 0);
    assert forall|j: int| 0 <= j < s.len() implies red(#[trigger] s[j], p) == 0 by {
        assert(j == 0 || j == 1 || j == 2 || j == 3 || j == 4 || j == 5 || j == 6);
    }
}

} // verus!
