//! The constraints of the arithmetic and logic chip.
use crate::air::{red_sends, red_seq, AdapterAirContext, AirBuilder, Expr};
use crate::field::number_theory::{finv, red};
use crate::field::PrimeField32;
use crate::limbs::{limb_base, limb_base_u32};
use crate::rv32im::base_alu::columns::BaseAluCoreCols;
use vstd::prelude::*;

verus! {

#[derive(Clone, Copy, Debug)]
pub struct BaseAluCoreAir<const NUM_LIMBS: usize, const LIMB_BITS: usize> {
    pub offset: usize,
}

impl<const NUM_LIMBS: usize, const LIMB_BITS: usize> BaseAluCoreAir<NUM_LIMBS, LIMB_BITS> {
    pub fn new(offset: usize) -> (r: Self)
        ensures
            r.offset == offset,
    {
        BaseAluCoreAir { offset }
    }

    /// The number of columns.
    pub fn width(&self) -> (r: usize)
        requires
            3 * NUM_LIMBS + 5 <= usize::MAX,
        ensures
            r == 3 * NUM_LIMBS + 5,
    {
        3 * NUM_LIMBS + 5
    }

    pub fn start_offset(&self) -> (r: usize)
        ensures
            r == self.offset,
    {
        self.offset
    }

    /// States the constraints and lookups of a row, and returns what the row reads and writes.
    pub fn eval<F: PrimeField32>(
        &self,
        builder: &mut AirBuilder<F>,
        cols: &BaseAluCoreCols<F, NUM_LIMBS, LIMB_BITS>,
    ) -> (ctx: AdapterAirContext<F, NUM_LIMBS>)
        requires
            limb_base(LIMB_BITS) < F::order(),
            4 < F::order(),
            self.offset < F::order(),
        ensures
            final(builder).constraint_vals() == old(builder).constraint_vals() + red_seq(
                cols.row().constraints(
                    finv(F::order(), limb_base(LIMB_BITS)),
                    NUM_LIMBS as int,
                ),
                F::order(),
            ),
            final(builder).send_vals() == old(builder).send_vals() + red_sends(
                cols.row().sends(NUM_LIMBS as int),
                F::order(),
            ),
            ctx.to_pc is None,
            ctx.reads[0] == cols.b,
            ctx.reads[1] == cols.c,
            ctx.writes[0] == cols.a,
            ctx.is_valid.val() == red(cols.row().is_valid(), F::order()),
            ctx.opcode.val() == red(cols.row().local_opcode() + self.offset, F::order()),
    {
        let ghost p = F::order();
        let ghost row = cols.row();
        let ghost constraints0 = builder.constraint_vals();
        proof {
            F::order_is_prime();
        }
        let is_valid = Self::eval_flags(builder, cols);
        Self::eval_carries(builder, cols);
        Self::eval_lookups(builder, cols, is_valid);
        let opcode = Expr::column(cols.opcode_sub_flag).add(
            Expr::constant(2).mul(Expr::column(cols.opcode_xor_flag)),
        ).add(Expr::constant(3).mul(Expr::column(cols.opcode_or_flag))).add(
            Expr::constant(4).mul(Expr::column(cols.opcode_and_flag)),
        ).add(Expr::constant_usize(self.offset));
        proof {
            let inv = finv(p, limb_base(LIMB_BITS));
            assert(builder.constraint_vals() =~= constraints0 + red_seq(
                row.constraints(inv, NUM_LIMBS as int),
                p,
            ));
        }
        AdapterAirContext {
            to_pc: None,
            reads: [cols.b, cols.c],
            writes: [cols.a],
            is_valid: is_valid.value(),
            opcode: opcode.value(),
        }
    }

    /// States the constraints on the flags and returns their sum.
    fn eval_flags<F: PrimeField32>(
        builder: &mut AirBuilder<F>,
        cols: &BaseAluCoreCols<F, NUM_LIMBS, LIMB_BITS>,
    ) -> (is_valid: Expr<F>)
        ensures
            final(builder).constraint_vals() == old(builder).constraint_vals() + red_seq(
                cols.row().flag_constraints(),
                F::order(),
            ),
            final(builder).send_vals() == old(builder).send_vals(),
            is_valid.poly() == cols.row().is_valid(),
    {
        let add = Expr::column(cols.opcode_add_flag);
        let sub = Expr::column(cols.opcode_sub_flag);
        let xor = Expr::column(cols.opcode_xor_flag);
        let or = Expr::column(cols.opcode_or_flag);
        let and = Expr::column(cols.opcode_and_flag);
        builder.assert_bool(add);
        builder.assert_bool(sub);
        builder.assert_bool(xor);
        builder.assert_bool(or);
        builder.assert_bool(and);
        let is_valid = add.add(sub).add(xor).add(or).add(and);
        builder.assert_bool(is_valid);
        assert(builder.constraint_vals() =~= old(builder).constraint_vals() + red_seq(
            cols.row().flag_constraints(),
            F::order(),
        ));
        is_valid
    }

    /// States the constraints on the carries.
    ///
    /// For ADD, carry[i] = (b[i] + c[i] + carry[i - 1] - a[i]) / 2^LIMB_BITS; for SUB,
    /// carry[i] = (a[i] + c[i] - b[i] + carry[i - 1]) / 2^LIMB_BITS. If each carry is zero or one
    /// and a[i] is a limb, then a[i] is the limb of the sum or of the difference.
    fn eval_carries<F: PrimeField32>(
        builder: &mut AirBuilder<F>,
        cols: &BaseAluCoreCols<F, NUM_LIMBS, LIMB_BITS>,
    )
        requires
            limb_base(LIMB_BITS) < F::order(),
        ensures
            final(builder).constraint_vals() == old(builder).constraint_vals() + red_seq(
                cols.row().carry_constraints(
                    finv(F::order(), limb_base(LIMB_BITS)),
                    NUM_LIMBS as int,
                ),
                F::order(),
            ),
            final(builder).send_vals() == old(builder).send_vals(),
    {
        let ghost p = F::order();
        let ghost row = cols.row();
        let ghost inv = finv(p, limb_base(LIMB_BITS));
        let ghost constraints0 = builder.constraint_vals();
        proof {
            F::order_is_prime();
        }
        let add_flag = Expr::column(cols.opcode_add_flag);
        let sub_flag = Expr::column(cols.opcode_sub_flag);
        let mut carry_add = Expr::constant(0);
        let mut carry_sub = Expr::constant(0);
        let base = limb_base_u32::<LIMB_BITS>(F::order_u32());
        let carry_divide = Expr::column(F::from_canonical_u32(base).inverse());
        assert(builder.constraint_vals() =~= constraints0 + red_seq(
            row.carry_constraints(inv, 0),
            p,
        ));
        for i in 0..NUM_LIMBS
            invariant
                p == F::order(),
                row == cols.row(),
                add_flag.poly() == row.add,
                sub_flag.poly() == row.sub,
                carry_divide.poly() == inv,
                carry_add.poly() == row.carry_add(inv, i - 1),
                carry_sub.poly() == row.carry_sub(inv, i - 1),
                builder.constraint_vals() == constraints0 + red_seq(
                    row.carry_constraints(inv, i as int),
                    p,
                ),
                builder.send_vals() == old(builder).send_vals(),
        {
            let a = Expr::column(cols.a[i]);
            let b = Expr::column(cols.b[i]);
            let c = Expr::column(cols.c[i]);
            carry_add = carry_divide.mul(b.add(c).sub(a).add(carry_add));
            builder.when_assert_bool(add_flag, carry_add);
            carry_sub = carry_divide.mul(a.add(c).sub(b).add(carry_sub));
            builder.when_assert_bool(sub_flag, carry_sub);
            assert(builder.constraint_vals() =~= constraints0 + red_seq(
                row.carry_constraints(inv, i + 1),
                p,
            ));
        }
    }

    /// Sends the lookups, which bound the limbs of a for ADD and SUB, and fix a for XOR, OR and
    /// AND.
    fn eval_lookups<F: PrimeField32>(
        builder: &mut AirBuilder<F>,
        cols: &BaseAluCoreCols<F, NUM_LIMBS, LIMB_BITS>,
        is_valid: Expr<F>,
    )
        requires
            is_valid.poly() == cols.row().is_valid(),
            2 < F::order(),
        ensures
            final(builder).constraint_vals() == old(builder).constraint_vals(),
            final(builder).send_vals() == old(builder).send_vals() + red_sends(
                cols.row().sends(NUM_LIMBS as int),
                F::order(),
            ),
    {
        let ghost p = F::order();
        let ghost row = cols.row();
        let ghost sends0 = builder.send_vals();
        let xor = Expr::column(cols.opcode_xor_flag);
        let or = Expr::column(cols.opcode_or_flag);
        let and = Expr::column(cols.opcode_and_flag);
        let bitwise = xor.add(or).add(and);
        let two = Expr::constant(2);
        assert(builder.send_vals() =~= sends0 + red_sends(row.sends(0), p));
        for i in 0..NUM_LIMBS
            invariant
                p == F::order(),
                row == cols.row(),
                xor.poly() == row.xor,
                or.poly() == row.or,
                and.poly() == row.and,
                bitwise.poly() == row.bitwise(),
                two.poly() == 2,
                is_valid.poly() == row.is_valid(),
                builder.constraint_vals() == old(builder).constraint_vals(),
                builder.send_vals() == sends0 + red_sends(row.sends(i as int), p),
        {
            let a = Expr::column(cols.a[i]);
            let b = Expr::column(cols.b[i]);
            let c = Expr::column(cols.c[i]);
            let x = bitwise.not().mul(a).add(bitwise.mul(b));
            let y = bitwise.not().mul(a).add(bitwise.mul(c));
            let x_xor_y = xor.mul(a).add(or.mul(two.mul(a).sub(b).sub(c))).add(
                and.mul(b.add(c).sub(two.mul(a))),
            );
            builder.send_xor(x, y, x_xor_y, is_valid);
            assert(builder.send_vals() =~= sends0 + red_sends(row.sends(i + 1), p));
        }
    }
}

} // verus!
