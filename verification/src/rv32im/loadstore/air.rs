//! The constraints of the load and store chip.
use crate::air::{red_seq, AirBuilder, Expr};
use crate::field::number_theory::{finv, red};
use crate::field::PrimeField32;
use crate::rv32im::loadstore::columns::{
    expr_12, InstructionOpcode, LoadStoreCoreCols, LoadStoreRow,
};
use vstd::prelude::*;

verus! {

/// What the chip tells its adapter about the instruction of a row.
pub struct LoadStoreInstruction<F> {
    pub is_valid: F,
    pub opcode: F,
    pub is_load: F,
    pub load_shift_amount: F,
    pub store_shift_amount: F,
}

/// What the chip tells its adapter about a row.
pub struct LoadStoreAirContext<F, const NUM_CELLS: usize> {
    pub to_pc: Option<F>,
    /// What the target held, and the data that moves.
    pub reads: ([F; NUM_CELLS], [F; NUM_CELLS]),
    pub writes: [[F; NUM_CELLS]; 1],
    pub instruction: LoadStoreInstruction<F>,
}

/// For each opcode, one where the flags stand for it.
struct OpcodeFlags<F: PrimeField32> {
    load_w0: Expr<F>,
    load_hu0: Expr<F>,
    load_hu2: Expr<F>,
    load_bu0: Expr<F>,
    load_bu1: Expr<F>,
    load_bu2: Expr<F>,
    load_bu3: Expr<F>,
    store_w0: Expr<F>,
    store_h0: Expr<F>,
    store_h2: Expr<F>,
    store_b0: Expr<F>,
    store_b1: Expr<F>,
    store_b2: Expr<F>,
    store_b3: Expr<F>,
}

impl<F: PrimeField32> OpcodeFlags<F> {
    spec fn of(&self, row: LoadStoreRow, inv_2: int) -> bool {
        &&& self.load_w0.poly() == row.when(inv_2, InstructionOpcode::LoadW0)
        &&& self.load_hu0.poly() == row.when(inv_2, InstructionOpcode::LoadHu0)
        &&& self.load_hu2.poly() == row.when(inv_2, InstructionOpcode::LoadHu2)
        &&& self.load_bu0.poly() == row.when(inv_2, InstructionOpcode::LoadBu0)
        &&& self.load_bu1.poly() == row.when(inv_2, InstructionOpcode::LoadBu1)
        &&& self.load_bu2.poly() == row.when(inv_2, InstructionOpcode::LoadBu2)
        &&& self.load_bu3.poly() == row.when(inv_2, InstructionOpcode::LoadBu3)
        &&& self.store_w0.poly() == row.when(inv_2, InstructionOpcode::StoreW0)
        &&& self.store_h0.poly() == row.when(inv_2, InstructionOpcode::StoreH0)
        &&& self.store_h2.poly() == row.when(inv_2, InstructionOpcode::StoreH2)
        &&& self.store_b0.poly() == row.when(inv_2, InstructionOpcode::StoreB0)
        &&& self.store_b1.poly() == row.when(inv_2, InstructionOpcode::StoreB1)
        &&& self.store_b2.poly() == row.when(inv_2, InstructionOpcode::StoreB2)
        &&& self.store_b3.poly() == row.when(inv_2, InstructionOpcode::StoreB3)
    }

    fn when_load_hu(&self) -> (r: Expr<F>)
        ensures
            r.poly() == self.load_hu0.poly() + self.load_hu2.poly(),
    {
        self.load_hu0.add(self.load_hu2)
    }

    fn when_load_bu(&self) -> (r: Expr<F>)
        ensures
            r.poly() == self.load_bu0.poly() + self.load_bu1.poly() + self.load_bu2.poly()
                + self.load_bu3.poly(),
    {
        self.load_bu0.add(self.load_bu1).add(self.load_bu2).add(self.load_bu3)
    }

    fn when_store_h(&self) -> (r: Expr<F>)
        ensures
            r.poly() == self.store_h0.poly() + self.store_h2.poly(),
    {
        self.store_h0.add(self.store_h2)
    }

    fn when_store_b(&self) -> (r: Expr<F>)
        ensures
            r.poly() == self.store_b0.poly() + self.store_b1.poly() + self.store_b2.poly()
                + self.store_b3.poly(),
    {
        self.store_b0.add(self.store_b1).add(self.store_b2).add(self.store_b3)
    }
}

#[derive(Clone, Debug)]
pub struct LoadStoreCoreAir<const NUM_CELLS: usize> {
    pub offset: usize,
}

impl<const NUM_CELLS: usize> LoadStoreCoreAir<NUM_CELLS> {
    pub fn new(offset: usize) -> (r: Self)
        ensures
            r.offset == offset,
    {
        LoadStoreCoreAir { offset }
    }

    /// The number of columns.
    pub fn width(&self) -> (r: usize)
        requires
            3 * NUM_CELLS + 6 <= usize::MAX,
        ensures
            r == 3 * NUM_CELLS + 6,
    {
        3 * NUM_CELLS + 6
    }

    pub fn start_offset(&self) -> (r: usize)
        ensures
            r == self.offset,
    {
        self.offset
    }

    /// States the constraints of a row, and returns what the row reads and writes.
    pub fn eval<F: PrimeField32>(
        &self,
        builder: &mut AirBuilder<F>,
        cols: &LoadStoreCoreCols<F, NUM_CELLS>,
    ) -> (ctx: LoadStoreAirContext<F, NUM_CELLS>)
        requires
            NUM_CELLS >= 4,
            5 < F::order(),
            self.offset < F::order(),
        ensures
            final(builder).constraint_vals() == old(builder).constraint_vals() + red_seq(
                cols.row().constraints(finv(F::order(), 2), NUM_CELLS as int),
                F::order(),
            ),
            final(builder).send_vals() == old(builder).send_vals(),
            ctx.to_pc is None,
            ctx.reads.0 == cols.prev_data,
            ctx.reads.1 == cols.read_data,
            ctx.writes[0] == cols.write_data,
            ctx.instruction.is_valid == cols.is_valid,
            ctx.instruction.is_load == cols.is_load,
            ctx.instruction.opcode.val() == red(
                cols.row().local_opcode(finv(F::order(), 2)) + self.offset,
                F::order(),
            ),
            ctx.instruction.load_shift_amount.val() == red(
                cols.row().load_shift(finv(F::order(), 2)),
                F::order(),
            ),
            ctx.instruction.store_shift_amount.val() == red(
                cols.row().store_shift(finv(F::order(), 2)),
                F::order(),
            ),
    {
        let ghost p = F::order();
        let ghost row = cols.row();
        let ghost inv_2 = finv(p, 2);
        let ghost constraints0 = builder.constraint_vals();
        proof {
            F::order_is_prime();
        }
        let on = Self::eval_flags(builder, cols);
        let ghost cells = Seq::new(NUM_CELLS as nat, |i: int| row.cell_constraint(inv_2, NUM_CELLS as int, i));
        assert(builder.constraint_vals() =~= constraints0 + red_seq(row.flag_constraints(inv_2), p)
            + red_seq(cells.take(0), p));
        for i in 0..NUM_CELLS
            invariant
                NUM_CELLS >= 4,
                p == F::order(),
                row == cols.row(),
                on.of(row, inv_2),
                cells == Seq::new(NUM_CELLS as nat, |i: int| row.cell_constraint(inv_2, NUM_CELLS as int, i)),
                builder.constraint_vals() == constraints0 + red_seq(row.flag_constraints(inv_2), p)
                    + red_seq(cells.take(i as int), p),
                builder.send_vals() == old(builder).send_vals(),
        {
            let load_val = Self::load_val(&on, cols, i, Ghost(inv_2));
            let store_val = Self::store_val(&on, cols, i, Ghost(inv_2));
            builder.assert_eq(Expr::column(cols.write_data[i]), load_val.add(store_val));
            assert(red_seq(cells.take(i + 1), p) =~= red_seq(cells.take(i as int), p).push(
                red(cells[i as int], p),
            ));
            assert(builder.constraint_vals() =~= constraints0 + red_seq(
                row.flag_constraints(inv_2),
                p,
            ) + red_seq(cells.take(i + 1), p));
        }
        assert(cells.take(NUM_CELLS as int) =~= cells);
        assert(builder.constraint_vals() =~= constraints0 + red_seq(
            row.constraints(inv_2, NUM_CELLS as int),
            p,
        ));
        let two = Expr::constant(2);
        let three = Expr::constant(3);
        let opcode = on.when_load_hu().mul(two).add(on.when_load_bu()).add(
            on.store_w0.mul(three),
        ).add(on.when_store_h().mul(Expr::constant(4))).add(
            on.when_store_b().mul(Expr::constant(5)),
        ).add(Expr::constant_usize(self.offset));
        let load_shift = on.load_bu1.add(on.load_hu2.add(on.load_bu2).mul(two)).add(
            on.load_bu3.mul(three),
        );
        let store_shift = on.store_b1.add(on.store_h2.add(on.store_b2).mul(two)).add(
            on.store_b3.mul(three),
        );
        LoadStoreAirContext {
            to_pc: None,
            reads: (cols.prev_data, cols.read_data),
            writes: [cols.write_data],
            instruction: LoadStoreInstruction {
                is_valid: cols.is_valid,
                opcode: opcode.value(),
                is_load: cols.is_load,
                load_shift_amount: load_shift.value(),
                store_shift_amount: store_shift.value(),
            },
        }
    }

    fn expr_12<F: PrimeField32>(x: Expr<F>) -> (r: Expr<F>)
        requires
            2 < F::order(),
        ensures
            r.poly() == expr_12(x.poly()),
    {
        x.sub(Expr::constant(1)).mul(x.sub(Expr::constant(2)))
    }

    /// States the constraints on the flags and decodes them.
    fn eval_flags<F: PrimeField32>(
        builder: &mut AirBuilder<F>,
        cols: &LoadStoreCoreCols<F, NUM_CELLS>,
    ) -> (on: OpcodeFlags<F>)
        requires
            2 < F::order(),
        ensures
            final(builder).constraint_vals() == old(builder).constraint_vals() + red_seq(
                cols.row().flag_constraints(finv(F::order(), 2)),
                F::order(),
            ),
            final(builder).send_vals() == old(builder).send_vals(),
            on.of(cols.row(), finv(F::order(), 2)),
    {
        let ghost p = F::order();
        let ghost row = cols.row();
        let is_valid = Expr::column(cols.is_valid);
        let is_load = Expr::column(cols.is_load);
        let f0 = Expr::column(cols.flags[0]);
        let f1 = Expr::column(cols.flags[1]);
        let f2 = Expr::column(cols.flags[2]);
        let f3 = Expr::column(cols.flags[3]);
        let sum = f0.add(f1).add(f2).add(f3);
        builder.assert_bool(is_valid);
        builder.assert_zero(f0.mul(Self::expr_12(f0)));
        builder.assert_zero(f1.mul(Self::expr_12(f1)));
        builder.assert_zero(f2.mul(Self::expr_12(f2)));
        builder.assert_zero(f3.mul(Self::expr_12(f3)));
        builder.assert_zero(sum.mul(Self::expr_12(sum)));
        // A sum of zero leaves the row not valid.
        builder.when_assert_zero(Self::expr_12(sum), is_valid);
        let inv_2 = Expr::column(F::from_canonical_u32(2).inverse());
        let one = Expr::constant(1);
        let neg_one = Expr::neg_one();
        let s = sum.sub(Expr::constant(2));
        let on = OpcodeFlags {
            load_w0: f0.mul(f0.sub(one)).mul(inv_2),
            load_hu0: f1.mul(f1.sub(one)).mul(inv_2),
            load_hu2: f2.mul(f2.sub(one)).mul(inv_2),
            load_bu0: f3.mul(f3.sub(one)).mul(inv_2),
            load_bu1: f0.mul(s).mul(neg_one),
            load_bu2: f1.mul(s).mul(neg_one),
            load_bu3: f2.mul(s).mul(neg_one),
            store_w0: f3.mul(s).mul(neg_one),
            store_h0: f0.mul(f1),
            store_h2: f0.mul(f2),
            store_b0: f0.mul(f3),
            store_b1: f1.mul(f2),
            store_b2: f1.mul(f3),
            store_b3: f2.mul(f3),
        };
        let when_load = on.load_w0.add(on.when_load_hu()).add(on.when_load_bu());
        builder.assert_eq(is_load, when_load);
        builder.when_assert_one(is_load, is_valid);
        assert(builder.constraint_vals() =~= old(builder).constraint_vals() + red_seq(
            row.flag_constraints(finv(p, 2)),
            p,
        ));
        on
    }

    /// What a load leaves in cell `i`.
    fn load_val<F: PrimeField32>(
        on: &OpcodeFlags<F>,
        cols: &LoadStoreCoreCols<F, NUM_CELLS>,
        i: usize,
        Ghost(inv_2): Ghost<int>,
    ) -> (r: Expr<F>)
        requires
            4 <= NUM_CELLS,
            i < NUM_CELLS,
            on.of(cols.row(), inv_2),
        ensures
            r.poly() == cols.row().load_val(inv_2, NUM_CELLS as int, i as int),
    {
        let read_data = &cols.read_data;
        if i == 0 {
            on.load_w0.add(on.load_hu0).add(on.load_bu0).mul(Expr::column(read_data[0])).add(
                on.load_bu1.mul(Expr::column(read_data[1])),
            ).add(on.load_hu2.add(on.load_bu2).mul(Expr::column(read_data[2]))).add(
                on.load_bu3.mul(Expr::column(read_data[3])),
            )
        } else if i < NUM_CELLS / 2 {
            on.load_w0.add(on.load_hu0).mul(Expr::column(read_data[i])).add(
                on.load_hu2.mul(Expr::column(read_data[i + 2])),
            )
        } else {
            on.load_w0.mul(Expr::column(read_data[i]))
        }
    }

    /// What a store leaves in cell `i`.
    fn store_val<F: PrimeField32>(
        on: &OpcodeFlags<F>,
        cols: &LoadStoreCoreCols<F, NUM_CELLS>,
        i: usize,
        Ghost(inv_2): Ghost<int>,
    ) -> (r: Expr<F>)
        requires
            4 <= NUM_CELLS,
            i < NUM_CELLS,
            on.of(cols.row(), inv_2),
        ensures
            r.poly() == cols.row().store_val(inv_2, NUM_CELLS as int, i as int),
    {
        let w0 = on.store_w0;
        let h0 = on.store_h0;
        let h2 = on.store_h2;
        let b0 = on.store_b0;
        let b1 = on.store_b1;
        let b2 = on.store_b2;
        let b3 = on.store_b3;
        let read_data = &cols.read_data;
        let read = Expr::column(read_data[i]);
        let prev = Expr::column(cols.prev_data[i]);
        let first = Expr::column(read_data[0]);
        if i == 0 {
            w0.add(h0).add(b0).mul(read).add(h2.add(b1).add(b2).add(b3).mul(prev))
        } else if i == 1 {
            b1.mul(first).add(w0.add(h0).mul(read)).add(h2.add(b0).add(b2).add(b3).mul(prev))
        } else if i == 2 {
            h2.add(b2).mul(first).add(w0.mul(read)).add(h0.add(b0).add(b1).add(b3).mul(prev))
        } else if i == 3 {
            b3.mul(first).add(h2.mul(Expr::column(read_data[1]))).add(w0.mul(read)).add(
                h0.add(b0).add(b1).add(b2).mul(prev),
            )
        } else {
            let of_h0 = if i < NUM_CELLS / 2 {
                read
            } else {
                prev
            };
            let of_h2 = if i - 2 < NUM_CELLS / 2 {
                Expr::column(read_data[i - 2])
            } else {
                prev
            };
            w0.mul(read).add(b0.add(b1).add(b2).add(b3).mul(prev)).add(h0.mul(of_h0)).add(
                h2.mul(of_h2),
            )
        }
    }
}

} // verus!
