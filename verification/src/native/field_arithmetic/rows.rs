//! What a row of the field arithmetic chip proves.
use crate::air::{red_sends, red_seq, AdapterAirContext, AirBuilder, SendVals};
use crate::air_rows::{accepted, fresh, lemma_accepted};
use crate::field::number_theory::lemma_red_small;
use crate::field::PrimeField32;
use crate::instructions::{FieldArithmeticOpcode, Instruction};
use crate::native::field_arithmetic::chip::{
    run_field_arithmetic, FieldArithmeticCoreAir, FieldArithmeticCoreCols, FieldArithmeticCoreStep,
    FieldArithmeticRecord,
};
use crate::native::field_arithmetic::laws::{
    law_field_arithmetic_complete, law_field_arithmetic_sound,
};
use crate::native::field_arithmetic::meaning::law_field_result;
use vstd::prelude::*;

verus! {

/// `z` solves the equation of operation `opcode` on `x` and `y` in the field of order `p`; a
/// division has a divisor other than zero.
pub open spec fn solves(opcode: int, x: int, y: int, z: int, p: int) -> bool {
    &&& 0 <= opcode <= 3
    &&& 0 <= z < p
    &&& opcode == 0 ==> (z - x - y) % p == 0
    &&& opcode == 1 ==> (z + y - x) % p == 0
    &&& opcode == 2 ==> (z - x * y) % p == 0
    &&& opcode == 3 ==> y != 0 && (z * y - x) % p == 0
}

spec fn opcode_at(index: int) -> FieldArithmeticOpcode {
    if index == 0 {
        FieldArithmeticOpcode::ADD
    } else if index == 1 {
        FieldArithmeticOpcode::SUB
    } else if index == 2 {
        FieldArithmeticOpcode::MUL
    } else {
        FieldArithmeticOpcode::DIV
    }
}

/// What is computed solves the equation of the operation.
pub proof fn law_run_field_arithmetic<F: PrimeField32>(
    opcode: FieldArithmeticOpcode,
    b: F,
    c: F,
    r: F,
)
    requires
        opcode.index() == 3 ==> c.val() != 0,
        call_ensures(run_field_arithmetic::<F>, (opcode, b, c), r),
    ensures
        solves(opcode.index(), b.val(), c.val(), r.val(), F::order()),
{
    F::order_is_prime();
    b.val_is_canonical();
    c.val_is_canonical();
    law_field_result(opcode, b.val(), c.val(), F::order());
}

/// Executing an instruction for the trace records its operands and its opcode, yields a result that
/// solves the equation of the operation, and moves the program counter on by four.
pub proof fn law_field_step<F: PrimeField32>(
    step: FieldArithmeticCoreStep,
    pc: &mut u32,
    instruction: Instruction<F>,
    reads: [F; 2],
    r: ([F; 1], FieldArithmeticRecord<F>),
)
    requires
        0x130 <= instruction.opcode.index <= 0x133,
        instruction.opcode.index == 0x133 ==> reads[1].val() != 0,
        call_ensures(
            FieldArithmeticCoreStep::execute::<F>,
            (&step, pc, &instruction, reads),
            r,
        ),
    ensures
        solves(
            instruction.opcode.index - 0x130,
            reads[0].val(),
            reads[1].val(),
            r.0[0].val(),
            F::order(),
        ),
        r.1.b == reads[0],
        r.1.c == reads[1],
        r.1.local_opcode == instruction.opcode.index - 0x130,
        *final(pc) == (*old(pc) + 4) % 0x1_0000_0000,
{
    F::order_is_prime();
    reads[0].val_is_canonical();
    reads[1].val_is_canonical();
    let op = opcode_at(instruction.opcode.index - 0x130);
    assert(r.1.is_of(op));
    law_field_result(op, reads[0].val(), reads[1].val(), F::order());
}

/// An accepted row that is valid shows the adapter an opcode of the chip, and a result that solves
/// the equation of the operation on the operands that it shows.
pub proof fn law_field_row_proves<F: PrimeField32>(
    air: FieldArithmeticCoreAir,
    builder: &mut AirBuilder<F>,
    cols: FieldArithmeticCoreCols<F>,
    ctx: AdapterAirContext<F, 1>,
)
    requires
        0x133 < F::order(),
        fresh(*old(builder)),
        call_ensures(FieldArithmeticCoreAir::eval::<F>, (&air, builder, &cols), ctx),
        accepted(*final(builder), 256),
        ctx.is_valid.val() != 0,
    ensures
        solves(
            ctx.opcode.val() - 0x130,
            ctx.reads[0][0].val(),
            ctx.reads[1][0].val(),
            ctx.writes[0][0].val(),
            F::order(),
        ),
        ctx.is_valid.val() == 1,
        ctx.to_pc is None,
{
    let p = F::order();
    F::order_is_prime();
    let row = cols.row();
    let constraints = row.constraints();
    assert(final(builder).constraint_vals() =~= red_seq(constraints, p));
    assert(final(builder).send_vals() =~= red_sends(Seq::<SendVals>::empty(), p));
    lemma_accepted(*final(builder), constraints, Seq::<SendVals>::empty(), 256);
    lemma_canonical(cols);
    let op = law_field_arithmetic_sound(row, p);
    law_field_result(op, row.b, row.c, p);
    lemma_red_small(op.index() + 0x130, p);
    lemma_red_small(1, p);
}

proof fn lemma_canonical<F: PrimeField32>(cols: FieldArithmeticCoreCols<F>)
    ensures
        cols.row().canonical(F::order()),
{
    cols.a.val_is_canonical();
    cols.b.val_is_canonical();
    cols.c.val_is_canonical();
    cols.is_add.val_is_canonical();
    cols.is_sub.val_is_canonical();
    cols.is_mul.val_is_canonical();
    cols.is_div.val_is_canonical();
    cols.divisor_inv.val_is_canonical();
}

/// A row that is filled from a record is accepted and valid, and shows the adapter the operands and
/// the opcode of the record.
pub proof fn law_field_filled_row_is_accepted<F: PrimeField32>(
    step: FieldArithmeticCoreStep,
    record: FieldArithmeticRecord<F>,
    cols: FieldArithmeticCoreCols<F>,
    air: FieldArithmeticCoreAir,
    builder: &mut AirBuilder<F>,
    ctx: AdapterAirContext<F, 1>,
)
    requires
        0x133 < F::order(),
        record.local_opcode <= 3,
        record.local_opcode == 3 ==> record.c.val() != 0,
        call_ensures(FieldArithmeticCoreStep::fill_trace_row::<F>, (&step, &record), cols),
        fresh(*old(builder)),
        call_ensures(FieldArithmeticCoreAir::eval::<F>, (&air, builder, &cols), ctx),
    ensures
        accepted(*final(builder), 256),
        ctx.is_valid.val() == 1,
        ctx.opcode.val() == 0x130 + record.local_opcode,
        ctx.reads[0][0] == record.b,
        ctx.reads[1][0] == record.c,
{
    let p = F::order();
    F::order_is_prime();
    let row = cols.row();
    let op = opcode_at(record.local_opcode as int);
    assert(record.is_of(op));
    lemma_canonical(cols);
    law_field_arithmetic_complete(row, op, p);
    let constraints = row.constraints();
    assert(final(builder).constraint_vals() =~= red_seq(constraints, p));
    assert(final(builder).send_vals() =~= red_sends(Seq::<SendVals>::empty(), p));
    lemma_accepted(*final(builder), constraints, Seq::<SendVals>::empty(), 256);
    lemma_red_small(op.index() + 0x130, p);
    lemma_red_small(1, p);
}

} // verus!
