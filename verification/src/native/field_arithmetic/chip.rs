//! The field arithmetic chip: its constraints and its trace.
use crate::air::{red_seq, AdapterAirContext, AirBuilder, Expr};
use crate::field::number_theory::{fadd, finv, fmul, fsub, red};
use crate::field::PrimeField32;
use crate::instructions::{FieldArithmeticOpcode, Instruction, DEFAULT_PC_STEP};
use vstd::prelude::*;

verus! {

/// The result of `opcode` on residues `b` and `c` modulo `p`.
pub open spec fn field_result(opcode: FieldArithmeticOpcode, b: int, c: int, p: int) -> int {
    match opcode {
        FieldArithmeticOpcode::ADD => red(b + c, p),
        FieldArithmeticOpcode::SUB => red(b - c, p),
        FieldArithmeticOpcode::MUL => red(b * c, p),
        FieldArithmeticOpcode::DIV => red(b * finv(p, c), p),
    }
}

/// Computes `opcode` on `b` and `c`; the divisor must not be zero.
pub fn run_field_arithmetic<F: PrimeField32>(opcode: FieldArithmeticOpcode, b: F, c: F) -> (r: F)
    requires
        opcode == FieldArithmeticOpcode::DIV ==> c.val() != 0,
    ensures
        r.val() == field_result(opcode, b.val(), c.val(), F::order()),
{
    proof {
        reveal(fadd);
        reveal(fsub);
        reveal(fmul);
    }
    match opcode {
        FieldArithmeticOpcode::ADD => b.add(c),
        FieldArithmeticOpcode::SUB => b.sub(c),
        FieldArithmeticOpcode::MUL => b.mul(c),
        FieldArithmeticOpcode::DIV => b.mul(c.inverse()),
    }
}

/// The columns of one row.
pub struct FieldArithmeticCoreCols<T> {
    pub a: T,
    pub b: T,
    pub c: T,
    pub is_add: T,
    pub is_sub: T,
    pub is_mul: T,
    pub is_div: T,
    /// The inverse of c for a division, otherwise zero.
    pub divisor_inv: T,
}

/// The canonical values of one row.
pub ghost struct FieldArithmeticRow {
    pub a: int,
    pub b: int,
    pub c: int,
    pub add: int,
    pub sub: int,
    pub mul: int,
    pub div: int,
    pub inv: int,
}

impl<F: PrimeField32> FieldArithmeticCoreCols<F> {
    pub open spec fn row(&self) -> FieldArithmeticRow {
        FieldArithmeticRow {
            a: self.a.val(),
            b: self.b.val(),
            c: self.c.val(),
            add: self.is_add.val(),
            sub: self.is_sub.val(),
            mul: self.is_mul.val(),
            div: self.is_div.val(),
            inv: self.divisor_inv.val(),
        }
    }
}

impl FieldArithmeticRow {
    pub open spec fn is_valid(self) -> int {
        self.add + self.sub + self.mul + self.div
    }

    /// The inner product of the flags and the results.
    pub open spec fn expected(self) -> int {
        self.add * (self.b + self.c) + self.sub * (self.b - self.c) + self.mul * (self.b * self.c)
            + self.div * (self.b * self.inv)
    }

    /// The inner product of the flags and the opcodes.
    pub open spec fn local_opcode(self) -> int {
        self.sub + self.mul * 2 + self.div * 3
    }

    /// Each flag is zero or one, and so is their sum; the result is the one that the flags select;
    /// for a division the divisor has the inverse that the row holds.
    pub open spec fn constraints(self) -> Seq<int> {
        seq![
            self.add * (self.add - 1),
            self.sub * (self.sub - 1),
            self.mul * (self.mul - 1),
            self.div * (self.div - 1),
            self.a - self.expected(),
            self.is_valid() * (self.is_valid() - 1),
            self.div - self.c * self.inv,
        ]
    }

    /// The flag of `opcode` is one and the others are zero.
    pub open spec fn selects(self, opcode: FieldArithmeticOpcode) -> bool {
        &&& self.add == (if opcode == FieldArithmeticOpcode::ADD { 1int } else { 0 })
        &&& self.sub == (if opcode == FieldArithmeticOpcode::SUB { 1int } else { 0 })
        &&& self.mul == (if opcode == FieldArithmeticOpcode::MUL { 1int } else { 0 })
        &&& self.div == (if opcode == FieldArithmeticOpcode::DIV { 1int } else { 0 })
    }
}

#[derive(Clone, Copy, Debug)]
pub struct FieldArithmeticCoreAir {}

impl FieldArithmeticCoreAir {
    pub fn new() -> (r: Self) {
        FieldArithmeticCoreAir {  }
    }

    /// The number of columns.
    pub fn width(&self) -> (r: usize)
        ensures
            r == 8,
    {
        8
    }

    pub fn start_offset(&self) -> (r: usize)
        ensures
            r == FieldArithmeticOpcode::CLASS_OFFSET,
    {
        FieldArithmeticOpcode::CLASS_OFFSET
    }

    /// States the constraints of a row, and returns what the row reads and writes.
    pub fn eval<F: PrimeField32>(
        &self,
        builder: &mut AirBuilder<F>,
        cols: &FieldArithmeticCoreCols<F>,
    ) -> (ctx: AdapterAirContext<F, 1>)
        requires
            FieldArithmeticOpcode::CLASS_OFFSET < F::order(),
        ensures
            final(builder).constraint_vals() == old(builder).constraint_vals() + red_seq(
                cols.row().constraints(),
                F::order(),
            ),
            final(builder).send_vals() == old(builder).send_vals(),
            ctx.to_pc is None,
            ctx.reads[0][0] == cols.b,
            ctx.reads[1][0] == cols.c,
            ctx.writes[0][0] == cols.a,
            ctx.is_valid.val() == red(cols.row().is_valid(), F::order()),
            ctx.opcode.val() == red(
                cols.row().local_opcode() + FieldArithmeticOpcode::CLASS_OFFSET,
                F::order(),
            ),
    {
        let a = Expr::column(cols.a);
        let b = Expr::column(cols.b);
        let c = Expr::column(cols.c);
        let is_add = Expr::column(cols.is_add);
        let is_sub = Expr::column(cols.is_sub);
        let is_mul = Expr::column(cols.is_mul);
        let is_div = Expr::column(cols.is_div);
        let divisor_inv = Expr::column(cols.divisor_inv);
        builder.assert_bool(is_add);
        builder.assert_bool(is_sub);
        builder.assert_bool(is_mul);
        builder.assert_bool(is_div);
        let is_valid = is_add.add(is_sub).add(is_mul).add(is_div);
        let expected_opcode = is_sub.add(is_mul.mul(Expr::constant(2))).add(
            is_div.mul(Expr::constant(3)),
        );
        let expected_result = is_add.mul(b.add(c)).add(is_sub.mul(b.sub(c))).add(
            is_mul.mul(b.mul(c)),
        ).add(is_div.mul(b.mul(divisor_inv)));
        builder.assert_eq(a, expected_result);
        builder.assert_bool(is_valid);
        builder.assert_eq(is_div, c.mul(divisor_inv));
        assert(builder.constraint_vals() =~= old(builder).constraint_vals() + red_seq(
            cols.row().constraints(),
            F::order(),
        ));
        let opcode = expected_opcode.add(
            Expr::constant_usize(FieldArithmeticOpcode::CLASS_OFFSET),
        );
        AdapterAirContext {
            to_pc: None,
            reads: [[cols.b], [cols.c]],
            writes: [[cols.a]],
            is_valid: is_valid.value(),
            opcode: opcode.value(),
        }
    }
}

/// What a row is filled from.
#[derive(Clone, Copy, Debug)]
pub struct FieldArithmeticRecord<F> {
    pub b: F,
    pub c: F,
    pub local_opcode: u8,
}

impl<F> FieldArithmeticRecord<F> {
    /// The record is of `opcode`.
    pub open spec fn is_of(self, opcode: FieldArithmeticOpcode) -> bool {
        self.local_opcode == opcode.index()
    }
}

pub struct FieldArithmeticCoreStep {}

impl FieldArithmeticCoreStep {
    pub fn new() -> (r: Self) {
        FieldArithmeticCoreStep {  }
    }

    /// The index is that of an opcode of this chip.
    pub open spec fn handles(opcode: usize) -> bool {
        FieldArithmeticOpcode::CLASS_OFFSET <= opcode < FieldArithmeticOpcode::CLASS_OFFSET + 4
    }

    pub fn get_opcode_name(&self, opcode: usize) -> (r: String)
        requires
            Self::handles(opcode),
        ensures
            forall|op: FieldArithmeticOpcode|
                op.index() == opcode - FieldArithmeticOpcode::CLASS_OFFSET ==> r@
                    == #[trigger] op.spec_name(),
    {
        FieldArithmeticOpcode::from_usize(opcode - FieldArithmeticOpcode::CLASS_OFFSET).name()
    }

    /// Executes an instruction on the operands that the adapter read. Returns what the adapter is
    /// to write and the record of the row; `pc` moves to the next instruction.
    pub fn execute<F: PrimeField32>(
        &self,
        pc: &mut u32,
        instruction: &Instruction<F>,
        reads: [F; 2],
    ) -> (r: ([F; 1], FieldArithmeticRecord<F>))
        requires
            Self::handles(instruction.opcode.index),
            instruction.opcode.index - FieldArithmeticOpcode::CLASS_OFFSET
                == FieldArithmeticOpcode::DIV.index() ==> reads[1].val() != 0,
        ensures
            r.1.b == reads[0],
            r.1.c == reads[1],
            r.1.local_opcode == instruction.opcode.index - FieldArithmeticOpcode::CLASS_OFFSET,
            forall|op: FieldArithmeticOpcode| #[trigger]
                r.1.is_of(op) ==> r.0[0].val() == field_result(
                    op,
                    reads[0].val(),
                    reads[1].val(),
                    F::order(),
                ),
            *final(pc) == (*old(pc) + DEFAULT_PC_STEP) % 0x1_0000_0000,
    {
        let opcode = FieldArithmeticOpcode::from_usize(
            instruction.opcode.local_opcode_idx(FieldArithmeticOpcode::CLASS_OFFSET),
        );
        let record = FieldArithmeticRecord {
            b: reads[0],
            c: reads[1],
            local_opcode: opcode.to_u8(),
        };
        let a_val = run_field_arithmetic(opcode, record.b, record.c);
        *pc = pc.wrapping_add(DEFAULT_PC_STEP);
        ([a_val], record)
    }

    /// Fills a row from its record.
    pub fn fill_trace_row<F: PrimeField32>(&self, record: &FieldArithmeticRecord<F>) -> (r:
        FieldArithmeticCoreCols<F>)
        requires
            record.local_opcode < 4,
            record.is_of(FieldArithmeticOpcode::DIV) ==> record.c.val() != 0,
        ensures
            r.b == record.b,
            r.c == record.c,
            forall|op: FieldArithmeticOpcode| #[trigger]
                record.is_of(op) ==> {
                    &&& r.row().selects(op)
                    &&& r.row().a == field_result(
                        op,
                        record.b.val(),
                        record.c.val(),
                        F::order(),
                    )
                    &&& r.row().inv == (if op == FieldArithmeticOpcode::DIV {
                        finv(F::order(), record.c.val())
                    } else {
                        0
                    })
                },
    {
        let opcode = FieldArithmeticOpcode::from_usize(record.local_opcode as usize);
        let result = run_field_arithmetic(opcode, record.b, record.c);
        let divisor_inv = if opcode == FieldArithmeticOpcode::DIV {
            record.c.inverse()
        } else {
            F::zero()
        };
        FieldArithmeticCoreCols {
            a: result,
            b: record.b,
            c: record.c,
            is_add: F::from_bool(opcode == FieldArithmeticOpcode::ADD),
            is_sub: F::from_bool(opcode == FieldArithmeticOpcode::SUB),
            is_mul: F::from_bool(opcode == FieldArithmeticOpcode::MUL),
            is_div: F::from_bool(opcode == FieldArithmeticOpcode::DIV),
            divisor_inv,
        }
    }
}

} // verus!
