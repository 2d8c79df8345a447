//! The constraints of the load and store chip hold exactly on correct rows.
use crate::air::{all_zero, byte_vals};
use crate::field::number_theory::{
    finv, is_prime, lemma_euclid, lemma_inverse, lemma_red_bool, lemma_red_eq, lemma_red_mul_right,
    lemma_red_small, lemma_red_zero_small, red,
};
use crate::instructions::Rv32LoadStoreOpcode;
use crate::rv32im::loadstore::columns::{expr_12, InstructionOpcode, LoadStoreRow};
use crate::rv32im::loadstore::step::word_vals;
use crate::rv32im::loadstore::execute::{keeps_target, placed, shift_valid};
use crate::rv32im::loadstore::write_data::{write_cell, write_cells, write_defined};
use vstd::prelude::*;

verus! {

impl LoadStoreRow {
    /// The flags stand for `op`.
    pub open spec fn selects(self, op: InstructionOpcode) -> bool {
        self.flags == op.flags()
    }

    /// Every value is a canonical value of the field of order `p`, and there are `n` cells.
    pub open spec fn canonical(self, n: int, p: int) -> bool {
        &&& self.flags.len() == 4
        &&& forall|i: int| 0 <= i < 4 ==> 0 <= #[trigger] self.flags[i] < p
        &&& 0 <= self.is_valid < p
        &&& 0 <= self.is_load < p
        &&& self.read_data.len() == n
        &&& forall|i: int| 0 <= i < n ==> 0 <= #[trigger] self.read_data[i] < p
        &&& self.prev_data.len() == n
        &&& forall|i: int| 0 <= i < n ==> 0 <= #[trigger] self.prev_data[i] < p
        &&& self.write_data.len() == n
        &&& forall|i: int| 0 <= i < n ==> 0 <= #[trigger] self.write_data[i] < p
    }
}

/// The cell constraints follow `op` on blocks of `n` cells. They do on every block of four or
/// five cells; on longer blocks the unshifted halfword store keeps the third and fourth cell.
pub open spec fn cells_follow(op: InstructionOpcode, n: int) -> bool {
    4 <= n && (op == InstructionOpcode::StoreH0 ==> n / 2 == 2)
}

/// The value of the indicator of the opcode that the flags stand for; its residue is one.
spec fn unit(op: InstructionOpcode, inv_2: int) -> int {
    match op {
        InstructionOpcode::LoadW0
        | InstructionOpcode::LoadHu0
        | InstructionOpcode::LoadHu2
        | InstructionOpcode::LoadBu0 => 2 * inv_2,
        _ => 1,
    }
}

/// The indicators of the other opcodes are zero.
proof fn lemma_when(row: LoadStoreRow, op: InstructionOpcode, inv_2: int)
    requires
        row.selects(op),
    ensures
        forall|other: InstructionOpcode| #[trigger]
            row.when(inv_2, other) == (if other == op {
                unit(op, inv_2)
            } else {
                0
            }),
{
    let (a, b, c, d) = (row.flags[0], row.flags[1], row.flags[2], row.flags[3]);
    let s = row.sum() - 2;
    assert forall|other: InstructionOpcode| #[trigger]
        row.when(inv_2, other) == (if other == op {
            unit(op, inv_2)
        } else {
            0
        }) by {
        lemma_two(a, inv_2);
        lemma_two(b, inv_2);
        lemma_two(c, inv_2);
        lemma_two(d, inv_2);
        lemma_one(a, s);
        lemma_one(b, s);
        lemma_one(c, s);
        lemma_one(d, s);
        lemma_pair(a, b);
        lemma_pair(a, c);
        lemma_pair(a, d);
        lemma_pair(b, c);
        lemma_pair(b, d);
        lemma_pair(c, d);
    }
}

proof fn lemma_two(f: int, inv_2: int)
    requires
        0 <= f <= 2,
    ensures
        f * (f - 1) * inv_2 == (if f == 2 { 2 * inv_2 } else { 0 }),
{
    assert(f == 0 ==> f * (f - 1) * inv_2 == 0) by (nonlinear_arith);
    assert(f == 1 ==> f * (f - 1) * inv_2 == 0) by (nonlinear_arith);
    assert(f == 2 ==> f * (f - 1) * inv_2 == 2 * inv_2) by (nonlinear_arith);
}

proof fn lemma_one(f: int, s: int)
    requires
        0 <= f <= 2,
        -2 <= s <= 0,
    ensures
        f == 0 ==> f * s * -1 == 0,
        s == 0 ==> f * s * -1 == 0,
        f == 1 && s == -1 ==> f * s * -1 == 1,
{
    assert(f == 0 ==> f * s == 0) by (nonlinear_arith);
    assert(s == 0 ==> f * s == 0) by (nonlinear_arith);
    assert(f == 1 && s == -1 ==> f * s == -1) by (nonlinear_arith);
}

proof fn lemma_pair(f: int, g: int)
    ensures
        f == 0 ==> f * g == 0,
        g == 0 ==> f * g == 0,
        f == 1 && g == 1 ==> f * g == 1,
{
    assert(f == 0 ==> f * g == 0) by (nonlinear_arith);
    assert(g == 0 ==> f * g == 0) by (nonlinear_arith);
    assert(f == 1 && g == 1 ==> f * g == 1) by (nonlinear_arith);
}

/// A sum of products with indicators, of which at most one is `u` and the others are zero.
proof fn lemma_pick(u: int, w1: int, x1: int, w2: int, x2: int, w3: int, x3: int, w4: int, x4: int)
    requires
        w1 == 0 || w1 == u,
        w2 == 0 || w2 == u,
        w3 == 0 || w3 == u,
        w4 == 0 || w4 == u,
    ensures
        w1 == 0 && w2 == 0 && w3 == 0 && w4 == 0 ==> w1 * x1 + w2 * x2 + w3 * x3 + w4 * x4 == 0,
        w1 == u && w2 == 0 && w3 == 0 && w4 == 0 ==> w1 * x1 + w2 * x2 + w3 * x3 + w4 * x4 == u
            * x1,
        w1 == 0 && w2 == u && w3 == 0 && w4 == 0 ==> w1 * x1 + w2 * x2 + w3 * x3 + w4 * x4 == u
            * x2,
        w1 == 0 && w2 == 0 && w3 == u && w4 == 0 ==> w1 * x1 + w2 * x2 + w3 * x3 + w4 * x4 == u
            * x3,
        w1 == 0 && w2 == 0 && w3 == 0 && w4 == u ==> w1 * x1 + w2 * x2 + w3 * x3 + w4 * x4 == u
            * x4,
{
    assert(w1 == 0 ==> w1 * x1 == 0) by (nonlinear_arith);
    assert(w2 == 0 ==> w2 * x2 == 0) by (nonlinear_arith);
    assert(w3 == 0 ==> w3 * x3 == 0) by (nonlinear_arith);
    assert(w4 == 0 ==> w4 * x4 == 0) by (nonlinear_arith);
}

/// The cell that the constraints expect is the cell that the instruction writes.
proof fn lemma_expected(
    row: LoadStoreRow,
    op: InstructionOpcode,
    read: Seq<u8>,
    prev: Seq<u32>,
    inv_2: int,
    i: int,
)
    requires
        row.selects(op),
        read.len() == prev.len(),
        row.read_data == byte_vals(read),
        row.prev_data == word_vals(prev),
        cells_follow(op, read.len() as int),
        0 <= i < read.len(),
    ensures
        row.load_val(inv_2, read.len() as int, i) + row.store_val(inv_2, read.len() as int, i)
            == unit(op, inv_2) * write_cell(
            op.opcode(),
            read,
            prev,
            op.shift(),
            read.len() as int,
            i,
        ),
{
    let n = read.len() as int;
    let u = unit(op, inv_2);
    let r = row.read_data;
    let q = row.prev_data;
    lemma_when(row, op, inv_2);
    let lw0 = row.when(inv_2, InstructionOpcode::LoadW0);
    let lh0 = row.when(inv_2, InstructionOpcode::LoadHu0);
    let lh2 = row.when(inv_2, InstructionOpcode::LoadHu2);
    let lb0 = row.when(inv_2, InstructionOpcode::LoadBu0);
    let lb1 = row.when(inv_2, InstructionOpcode::LoadBu1);
    let lb2 = row.when(inv_2, InstructionOpcode::LoadBu2);
    let lb3 = row.when(inv_2, InstructionOpcode::LoadBu3);
    let w0 = row.when(inv_2, InstructionOpcode::StoreW0);
    let h0 = row.when(inv_2, InstructionOpcode::StoreH0);
    let h2 = row.when(inv_2, InstructionOpcode::StoreH2);
    let b0 = row.when(inv_2, InstructionOpcode::StoreB0);
    let b1 = row.when(inv_2, InstructionOpcode::StoreB1);
    let b2 = row.when(inv_2, InstructionOpcode::StoreB2);
    let b3 = row.when(inv_2, InstructionOpcode::StoreB3);
    if i == 0 {
        lemma_pick(u, lw0 + lh0 + lb0, r[0], lb1, r[1], lh2 + lb2, r[2], lb3, r[3]);
        lemma_pick(u, w0 + h0 + b0, r[0], h2 + b1 + b2 + b3, q[0], 0, 0, 0, 0);
    } else {
        if i < n / 2 {
            lemma_pick(u, lw0 + lh0, r[i], lh2, r[i + 2], 0, 0, 0, 0);
        } else {
            lemma_pick(u, lw0, r[i], 0, 0, 0, 0, 0, 0);
        }
        if i == 1 {
            lemma_pick(u, b1, r[0], w0 + h0, r[1], h2 + b0 + b2 + b3, q[1], 0, 0);
        } else if i == 2 {
            lemma_pick(u, h2 + b2, r[0], w0, r[2], h0 + b0 + b1 + b3, q[2], 0, 0);
        } else if i == 3 {
            lemma_pick(u, b3, r[0], h2, r[1], w0, r[3], h0 + b0 + b1 + b2, q[3]);
        } else {
            let x = if i < n / 2 {
                r[i]
            } else {
                q[i]
            };
            let y = if i - 2 < n / 2 {
                r[i - 2]
            } else {
                q[i]
            };
            lemma_pick(u, w0, r[i], b0 + b1 + b2 + b3, q[i], h0, x, h2, y);
        }
    }
    assert(u * 0 == 0);
}

/// The residue of the indicator of the selected opcode is one.
proof fn lemma_unit(op: InstructionOpcode, p: int)
    requires
        is_prime(p),
        p > 2,
    ensures
        red(unit(op, finv(p, 2)), p) == 1,
        forall|x: int| #[trigger] red(unit(op, finv(p, 2)) * x, p) == red(x, p),
{
    lemma_red_small(2, p);
    lemma_red_small(1, p);
    lemma_inverse(p, 2);
    let u = unit(op, finv(p, 2));
    assert forall|x: int| #[trigger] red(u * x, p) == red(x, p) by {
        lemma_red_mul_right(x, u, p);
        assert(u * x == x * u) by (nonlinear_arith);
    }
}

/// A canonical value that is annihilated with itself minus one and two is zero, one or two.
proof fn lemma_ternary(x: int, p: int)
    requires
        is_prime(p),
        p > 2,
        0 <= x < p,
        red(x * expr_12(x), p) == 0,
    ensures
        0 <= x <= 2,
{
    lemma_euclid(p, x, expr_12(x));
    lemma_red_small(x, p);
    if x != 0 {
        lemma_euclid(p, x - 1, x - 2);
        if red(x - 1, p) == 0 {
            lemma_red_zero_small(x - 1, p);
        } else {
            lemma_red_zero_small(x - 2, p);
        }
    }
}

/// The flags of a valid row stand for an opcode.
proof fn lemma_decode(row: LoadStoreRow, n: int, inv_2: int, p: int) -> (op: InstructionOpcode)
    requires
        is_prime(p),
        p > 8,
        row.canonical(n, p),
        all_zero(row.flag_constraints(inv_2), p),
        row.is_valid != 0,
    ensures
        row.selects(op),
        row.is_valid == 1,
{
    let s = row.flag_constraints(inv_2);
    assert(red(s[0], p) == 0);
    assert(red(s[1], p) == 0);
    assert(red(s[2], p) == 0);
    assert(red(s[3], p) == 0);
    assert(red(s[4], p) == 0);
    assert(red(s[5], p) == 0);
    assert(red(s[6], p) == 0);
    lemma_red_bool(row.is_valid, p);
    let (a, b, c, d) = (row.flags[0], row.flags[1], row.flags[2], row.flags[3]);
    lemma_ternary(a, p);
    lemma_ternary(b, p);
    lemma_ternary(c, p);
    lemma_ternary(d, p);
    lemma_ternary(row.sum(), p);
    if row.sum() == 0 {
        let (x, v) = (row.sum(), row.is_valid);
        assert((x - 1) * (x - 2) * v == 2) by (nonlinear_arith)
            requires
                x == 0,
                v == 1,
        ;
        lemma_red_small(2, p);
    }
    let op = if a == 2 {
        InstructionOpcode::LoadW0
    } else if b == 2 {
        InstructionOpcode::LoadHu0
    } else if c == 2 {
        InstructionOpcode::LoadHu2
    } else if d == 2 {
        InstructionOpcode::LoadBu0
    } else if a == 1 {
        if b == 1 {
            InstructionOpcode::StoreH0
        } else if c == 1 {
            InstructionOpcode::StoreH2
        } else if d == 1 {
            InstructionOpcode::StoreB0
        } else {
            InstructionOpcode::LoadBu1
        }
    } else if b == 1 {
        if c == 1 {
            InstructionOpcode::StoreB1
        } else if d == 1 {
            InstructionOpcode::StoreB2
        } else {
            InstructionOpcode::LoadBu2
        }
    } else if c == 1 {
        if d == 1 {
            InstructionOpcode::StoreB3
        } else {
            InstructionOpcode::LoadBu3
        }
    } else {
        InstructionOpcode::StoreW0
    };
    assert(row.flags =~= op.flags());
    op
}

/// What the chip tells its adapter of a row whose flags stand for `op`.
proof fn lemma_instruction(row: LoadStoreRow, op: InstructionOpcode, p: int)
    requires
        is_prime(p),
        p > 5,
        row.selects(op),
    ensures
        red(row.local_opcode(finv(p, 2)), p) == op.opcode().index(),
        red(row.load_shift(finv(p, 2)), p) == (if op.opcode().is_load() { op.shift() } else { 0 }),
        red(row.store_shift(finv(p, 2)), p) == (if op.opcode().is_load() { 0 } else { op.shift() }),
        red(row.when_load(finv(p, 2)), p) == (if op.opcode().is_load() { 1int } else { 0 }),
{
    let inv_2 = finv(p, 2);
    let u = unit(op, inv_2);
    lemma_when(row, op, inv_2);
    lemma_unit(op, p);
    lemma_red_small(0, p);
    lemma_red_small(1, p);
    lemma_red_small(2, p);
    lemma_red_small(3, p);
    lemma_red_small(4, p);
    lemma_red_small(5, p);
    let shift = op.shift();
    let index = op.opcode().index();
    assert(red(u * index, p) == red(index, p));
    assert(red(u * shift, p) == red(shift, p));
    assert(row.local_opcode(inv_2) == u * index);
    assert(row.load_shift(inv_2) == (if op.opcode().is_load() { u * shift } else { 0 }));
    assert(row.store_shift(inv_2) == (if op.opcode().is_load() { 0 } else { u * shift }));
    assert(row.when_load(inv_2) == (if op.opcode().is_load() { u } else { 0 }));
}

/// The row of a chip whose first opcode is `offset` tells the adapter an opcode and the shift of
/// its access.
pub open spec fn tells(
    row: LoadStoreRow,
    offset: int,
    opcode: Rv32LoadStoreOpcode,
    shift: int,
    p: int,
) -> bool {
    &&& red(row.local_opcode(finv(p, 2)) + offset, p) == red(opcode.index() + offset, p)
    &&& red(row.load_shift(finv(p, 2)), p) + red(row.store_shift(finv(p, 2)), p) == shift
}

/// The adapter is told the opcode and the shift that the flags stand for, and no others.
proof fn lemma_tells(row: LoadStoreRow, op: InstructionOpcode, p: int)
    requires
        is_prime(p),
        p > 5,
        row.selects(op),
    ensures
        forall|offset: int| #[trigger] tells(row, offset, op.opcode(), op.shift(), p),
        p > 8 ==> forall|offset: int, opcode: Rv32LoadStoreOpcode, shift: int| #[trigger]
            tells(row, offset, opcode, shift, p) ==> opcode == op.opcode() && shift == op.shift(),
{
    let local = row.local_opcode(finv(p, 2));
    let index = op.opcode().index();
    lemma_instruction(row, op, p);
    lemma_red_small(index, p);
    lemma_red_eq(local, index, p);
    assert forall|offset: int| #[trigger] tells(row, offset, op.opcode(), op.shift(), p) by {
        assert((local + offset) - (index + offset) == local - index);
        lemma_red_eq(local + offset, index + offset, p);
    }
    if p > 8 {
        assert forall|offset: int, opcode: Rv32LoadStoreOpcode, shift: int| #[trigger]
            tells(row, offset, opcode, shift, p) implies opcode == op.opcode() && shift
            == op.shift() by {
            let other = opcode.index();
            assert((local + offset) - (other + offset) == local - other);
            lemma_red_eq(local + offset, other + offset, p);
            lemma_red_eq(local, other, p);
            lemma_red_small(other, p);
        }
    }
}

/// The constraints of a valid row admit only the cells that the instruction writes: the flags
/// stand for an opcode and an aligned shift, and the row tells the adapter that opcode, that shift
/// and no other, and whether it is a load.
pub proof fn law_loadstore_sound(row: LoadStoreRow, read: Seq<u8>, prev: Seq<u32>, p: int) -> (op:
    InstructionOpcode)
    requires
        is_prime(p),
        p > 8,
        read.len() == prev.len(),
        read.len() >= 4,
        row.canonical(read.len() as int, p),
        row.read_data == byte_vals(read),
        row.prev_data == word_vals(prev),
        all_zero(row.constraints(finv(p, 2), read.len() as int), p),
        row.is_valid != 0,
    ensures
        row.selects(op),
        row.is_valid == 1,
        row.is_load == (if op.opcode().is_load() { 1int } else { 0 }),
        cells_follow(op, read.len() as int) ==> row.write_data == word_vals(
            write_cells(op.opcode(), read, prev, op.shift()),
        ),
        red(row.local_opcode(finv(p, 2)), p) == op.opcode().index(),
        red(row.load_shift(finv(p, 2)), p) == (if op.opcode().is_load() { op.shift() } else { 0 }),
        red(row.store_shift(finv(p, 2)), p) == (if op.opcode().is_load() { 0 } else { op.shift() }),
        write_defined(op.opcode(), op.shift(), read.len() as int),
        forall|offset: int| #[trigger] tells(row, offset, op.opcode(), op.shift(), p),
        forall|offset: int, opcode: Rv32LoadStoreOpcode, shift: int| #[trigger]
            tells(row, offset, opcode, shift, p) ==> opcode == op.opcode() && shift == op.shift(),
{
    let n = read.len() as int;
    let inv_2 = finv(p, 2);
    let s = row.constraints(inv_2, n);
    let flags = row.flag_constraints(inv_2);
    assert forall|j: int| 0 <= j < flags.len() implies red(#[trigger] flags[j], p) == 0 by {
        assert(s[j] == flags[j]);
    }
    let op = lemma_decode(row, n, inv_2, p);
    lemma_instruction(row, op, p);
    lemma_tells(row, op, p);
    assert(red(flags[7], p) == 0);
    lemma_red_eq(row.is_load, row.when_load(inv_2), p);
    lemma_red_small(row.is_load, p);
    if cells_follow(op, n) {
        let cells = write_cells(op.opcode(), read, prev, op.shift());
        assert forall|i: int| 0 <= i < n implies #[trigger] row.write_data[i] == cells[i] by {
            assert(red(s[i + 9], p) == 0);
            assert(s[i + 9] == row.cell_constraint(inv_2, n, i));
            lemma_expected(row, op, read, prev, inv_2, i);
            lemma_unit(op, p);
            let expected = row.load_val(inv_2, n, i) + row.store_val(inv_2, n, i);
            lemma_red_eq(row.write_data[i], expected, p);
            lemma_red_small(row.write_data[i], p);
            assert(forall|j: int| 0 <= j < n ==> (#[trigger] row.read_data[j]) == read[j]);
            assert(row.prev_data[i] == prev[i]);
            assert(forall|j: int| 0 <= j < n ==> (#[trigger] read[j]) == row.read_data[j]);
            lemma_red_small(cells[i] as int, p);
        }
        assert(row.write_data =~= word_vals(cells));
    }
    op
}

/// A row that holds an instruction and the cells that it writes satisfies all constraints, and
/// tells the adapter the opcode and the shift of the instruction.
pub proof fn law_loadstore_complete(
    row: LoadStoreRow,
    op: InstructionOpcode,
    read: Seq<u8>,
    prev: Seq<u32>,
    p: int,
)
    requires
        is_prime(p),
        p > 5,
        read.len() == prev.len(),
        cells_follow(op, read.len() as int),
        row.selects(op),
        row.is_valid == 1,
        row.is_load == (if op.opcode().is_load() { 1int } else { 0 }),
        row.read_data == byte_vals(read),
        row.prev_data == word_vals(prev),
        row.write_data == word_vals(write_cells(op.opcode(), read, prev, op.shift())),
    ensures
        all_zero(row.constraints(finv(p, 2), read.len() as int), p),
        forall|offset: int| #[trigger] tells(row, offset, op.opcode(), op.shift(), p),
{
    let n = read.len() as int;
    let inv_2 = finv(p, 2);
    let s = row.constraints(inv_2, n);
    let flags = row.flag_constraints(inv_2);
    lemma_instruction(row, op, p);
    lemma_tells(row, op, p);
    lemma_red_small(0, p);
    lemma_red_small(row.is_load, p);
    lemma_red_eq(row.is_load, row.when_load(inv_2), p);
    lemma_ternary_holds(row.flags[0]);
    lemma_ternary_holds(row.flags[1]);
    lemma_ternary_holds(row.flags[2]);
    lemma_ternary_holds(row.flags[3]);
    lemma_ternary_holds(row.sum());
    assert forall|j: int| 0 <= j < s.len() implies red(#[trigger] s[j], p) == 0 by {
        if j < 9 {
            assert(s[j] == flags[j]);
        } else {
            let i = j - 9;
            assert(s[j] == row.cell_constraint(inv_2, n, i));
            lemma_expected(row, op, read, prev, inv_2, i);
            lemma_unit(op, p);
            let cell = write_cells(op.opcode(), read, prev, op.shift())[i] as int;
            assert(row.write_data[i] == cell);
            lemma_red_eq(cell, unit(op, inv_2) * cell, p);
        }
    }
}

proof fn lemma_ternary_holds(x: int)
    requires
        0 <= x <= 2,
    ensures
        x * expr_12(x) == 0,
        x >= 1 ==> expr_12(x) == 0,
{
    assert(x == 0 || x == 1 || x == 2);
}

/// The instruction that an opcode and the shift of its access make.
pub open spec fn instruction_of(opcode: Rv32LoadStoreOpcode, shift: int) -> InstructionOpcode {
    match opcode {
        Rv32LoadStoreOpcode::LOADW => InstructionOpcode::LoadW0,
        Rv32LoadStoreOpcode::LOADHU => if shift == 0 {
            InstructionOpcode::LoadHu0
        } else {
            InstructionOpcode::LoadHu2
        },
        Rv32LoadStoreOpcode::LOADBU => if shift == 0 {
            InstructionOpcode::LoadBu0
        } else if shift == 1 {
            InstructionOpcode::LoadBu1
        } else if shift == 2 {
            InstructionOpcode::LoadBu2
        } else {
            InstructionOpcode::LoadBu3
        },
        Rv32LoadStoreOpcode::STOREW => InstructionOpcode::StoreW0,
        Rv32LoadStoreOpcode::STOREH => if shift == 0 {
            InstructionOpcode::StoreH0
        } else {
            InstructionOpcode::StoreH2
        },
        _ => if shift == 0 {
            InstructionOpcode::StoreB0
        } else if shift == 1 {
            InstructionOpcode::StoreB1
        } else if shift == 2 {
            InstructionOpcode::StoreB2
        } else {
            InstructionOpcode::StoreB3
        },
    }
}

/// Every aligned access has flags of its own: they stand for its opcode and its shift, and no
/// other aligned access has them.
pub proof fn law_loadstore_flags_distinct(
    opcode: Rv32LoadStoreOpcode,
    shift: int,
    other: Rv32LoadStoreOpcode,
    other_shift: int,
    n: int,
)
    requires
        n >= 4,
        write_defined(opcode, shift, n),
        write_defined(other, other_shift, n),
    ensures
        instruction_of(opcode, shift).opcode() == opcode,
        instruction_of(opcode, shift).shift() == shift,
        instruction_of(opcode, shift).flags() == instruction_of(other, other_shift).flags()
            ==> opcode == other && shift == other_shift,
{
    let (x, y) = (instruction_of(opcode, shift).flags(), instruction_of(other, other_shift).flags());
    if x == y {
        assert(x[0] == y[0] && x[1] == y[1] && x[2] == y[2] && x[3] == y[3]);
    }
}

/// Execution and trace generation agree on every access that is aligned to its size: what is
/// placed over the target, or over zeros where the target is not kept, is the write data.
pub proof fn law_loadstore_modes_agree(
    opcode: Rv32LoadStoreOpcode,
    read: Seq<u8>,
    prev: Seq<u32>,
    shift: int,
)
    requires
        read.len() == 4,
        prev.len() == 4,
        write_defined(opcode, shift, 4),
    ensures
        shift_valid(opcode, shift),
        placed(
            opcode,
            if keeps_target(opcode) {
                prev
            } else {
                seq![0u32, 0, 0, 0]
            },
            read,
            shift,
        ) == write_cells(opcode, read, prev, shift),
{
    let target = if keeps_target(opcode) {
        prev
    } else {
        seq![0u32, 0, 0, 0]
    };
    assert(placed(opcode, target, read, shift) =~= write_cells(opcode, read, prev, shift));
}

} // verus!
