//! The constraints of the comparison chip.
use crate::air::{red_sends, red_seq, AdapterAirContext, AirBuilder, Expr};
use crate::field::number_theory::red;
use crate::field::PrimeField32;
use crate::limbs::{limb_base, limb_base_u32};
use crate::rv32im::less_than::columns::LessThanCoreCols;
use crate::rv32im::less_than::comparison::half_base;
use vstd::arithmetic::power2::*;
use vstd::bits::*;
use vstd::prelude::*;

verus! {

#[derive(Clone, Copy, Debug)]
pub struct LessThanCoreAir<const NUM_LIMBS: usize, const LIMB_BITS: usize> {
    offset: usize,
}

impl<const NUM_LIMBS: usize, const LIMB_BITS: usize> LessThanCoreAir<NUM_LIMBS, LIMB_BITS> {
    /// The first opcode of the chip.
    pub closed spec fn spec_offset(&self) -> usize {
        self.offset
    }

    pub fn new(offset: usize) -> (r: Self)
        ensures
            r.spec_offset() == offset,
    {
        LessThanCoreAir { offset }
    }

    /// The number of columns.
    pub fn width(&self) -> (r: usize)
        requires
            3 * NUM_LIMBS + 6 <= usize::MAX,
        ensures
            r == 3 * NUM_LIMBS + 6,
    {
        3 * NUM_LIMBS + 6
    }

    pub fn start_offset(&self) -> (r: usize)
        ensures
            r == self.spec_offset(),
    {
        self.offset
    }

    /// States the constraints and lookups of a row, and returns what the row reads and writes.
    pub fn eval<F: PrimeField32>(
        &self,
        builder: &mut AirBuilder<F>,
        cols: &LessThanCoreCols<F, NUM_LIMBS, LIMB_BITS>,
    ) -> (ctx: AdapterAirContext<F, NUM_LIMBS>)
        requires
            NUM_LIMBS >= 1,
            LIMB_BITS >= 1,
            limb_base(LIMB_BITS) < F::order(),
            2 < F::order(),
            self.spec_offset() < F::order(),
        ensures
            final(builder).constraint_vals() == old(builder).constraint_vals() + red_seq(
                cols.row().constraints(limb_base(LIMB_BITS)),
                F::order(),
            ),
            final(builder).send_vals() == old(builder).send_vals() + red_sends(
                cols.row().sends(half_base(LIMB_BITS)),
                F::order(),
            ),
            ctx.to_pc is None,
            ctx.reads[0] == cols.b,
            ctx.reads[1] == cols.c,
            ctx.writes[0][0].val() == cols.row().result,
            forall|i: int| 1 <= i < NUM_LIMBS ==> (#[trigger] ctx.writes[0][i]).val() == 0,
            ctx.is_valid.val() == red(cols.row().is_valid(), F::order()),
            ctx.opcode.val() == red(cols.row().sltu + self.spec_offset(), F::order()),
    {
        let ghost p = F::order();
        let ghost row = cols.row();
        let ghost constraints0 = builder.constraint_vals();
        let ghost sends0 = builder.send_vals();
        proof {
            F::order_is_prime();
        }
        let slt = Expr::column(cols.opcode_slt_flag);
        let sltu = Expr::column(cols.opcode_sltu_flag);
        let less = Expr::column(cols.cmp_result);
        let is_valid = slt.add(sltu);
        builder.assert_bool(slt);
        builder.assert_bool(sltu);
        builder.assert_bool(is_valid);
        builder.assert_bool(less);
        let base = Expr::constant(limb_base_u32::<LIMB_BITS>(F::order_u32()));
        let b_msb = Expr::column(cols.b_msb_f);
        let c_msb = Expr::column(cols.c_msb_f);
        let b_diff = Expr::column(cols.b[NUM_LIMBS - 1]).sub(b_msb);
        let c_diff = Expr::column(cols.c[NUM_LIMBS - 1]).sub(c_msb);
        builder.assert_zero(b_diff.mul(base.sub(b_diff)));
        builder.assert_zero(c_diff.mul(base.sub(c_diff)));
        assert(builder.constraint_vals() =~= constraints0 + red_seq(
            row.head_constraints(limb_base(LIMB_BITS)),
            p,
        ));
        let prefix_sum = Self::eval_limbs(builder, cols, less);
        // If b and c differ, then one limb is marked, and it is the first one that differs: the
        // difference there is diff_val, which is not zero. If they are equal, then no limb is
        // marked, because the difference at a marked limb is not zero, and the result is zero.
        builder.assert_bool(prefix_sum);
        builder.when_assert_zero(prefix_sum.not(), less);
        assert(builder.constraint_vals() =~= constraints0 + red_seq(
            row.constraints(limb_base(LIMB_BITS)),
            p,
        ));
        let half = Expr::constant(half_base_u32::<LIMB_BITS>(F::order_u32()));
        builder.send_range(b_msb.add(half.mul(slt)), c_msb.add(half.mul(slt)), is_valid);
        builder.send_range(
            Expr::column(cols.diff_val).sub(Expr::constant(1)),
            Expr::constant(0),
            prefix_sum,
        );
        assert(builder.send_vals() =~= sends0 + red_sends(row.sends(half_base(LIMB_BITS)), p));
        let opcode = sltu.add(Expr::constant_usize(self.offset));
        let mut a = [F::zero();NUM_LIMBS];
        a[0] = cols.cmp_result;
        AdapterAirContext {
            to_pc: None,
            reads: [cols.b, cols.c],
            writes: [a],
            is_valid: is_valid.value(),
            opcode: opcode.value(),
        }
    }

    /// States the constraints on the limbs and returns the sum of the markers.
    fn eval_limbs<F: PrimeField32>(
        builder: &mut AirBuilder<F>,
        cols: &LessThanCoreCols<F, NUM_LIMBS, LIMB_BITS>,
        less: Expr<F>,
    ) -> (prefix_sum: Expr<F>)
        requires
            NUM_LIMBS >= 1,
            2 < F::order(),
            less.poly() == cols.row().result,
        ensures
            final(builder).constraint_vals() == old(builder).constraint_vals() + red_seq(
                cols.row().limb_constraints(0),
                F::order(),
            ),
            final(builder).send_vals() == old(builder).send_vals(),
            prefix_sum.poly() == cols.row().prefix(0),
    {
        let ghost p = F::order();
        let ghost row = cols.row();
        let ghost constraints0 = builder.constraint_vals();
        let mut prefix_sum = Expr::constant(0);
        let sign = Expr::constant(2).mul(less).sub(Expr::constant(1));
        let diff_val = Expr::column(cols.diff_val);
        let mut i = NUM_LIMBS;
        assert(builder.constraint_vals() =~= constraints0 + red_seq(
            row.limb_constraints(i as int),
            p,
        ));
        while i > 0
            invariant
                0 <= i <= NUM_LIMBS,
                p == F::order(),
                row == cols.row(),
                diff_val.poly() == row.diff_val,
                sign.poly() == 2 * row.result - 1,
                prefix_sum.poly() == row.prefix(i as int),
                builder.constraint_vals() == constraints0 + red_seq(
                    row.limb_constraints(i as int),
                    p,
                ),
                builder.send_vals() == old(builder).send_vals(),
            decreases i,
        {
            let ghost before = i as int;
            i = i - 1;
            let diff = if i == NUM_LIMBS - 1 {
                Expr::column(cols.c_msb_f).sub(Expr::column(cols.b_msb_f)).mul(sign)
            } else {
                Expr::column(cols.c[i]).sub(Expr::column(cols.b[i])).mul(sign)
            };
            let marker = Expr::column(cols.diff_marker[i]);
            prefix_sum = prefix_sum.add(marker);
            builder.assert_bool(marker);
            builder.assert_zero(prefix_sum.not().mul(diff));
            builder.when_assert_zero(marker, diff_val.sub(diff));
            assert(builder.constraint_vals() =~= constraints0 + red_seq(
                row.limb_constraints(i as int),
                p,
            ));
        }
        prefix_sum
    }
}

/// Half the base of the limbs, where it lies below `order`.
fn half_base_u32<const LIMB_BITS: usize>(order: u32) -> (r: u32)
    requires
        LIMB_BITS >= 1,
        limb_base(LIMB_BITS) < order,
    ensures
        r == half_base(LIMB_BITS),
        r < order,
{
    let base = limb_base_u32::<LIMB_BITS>(order);
    proof {
        crate::limbs::lemma_limb_base(LIMB_BITS);
    }
    base / 2
}

} // verus!
