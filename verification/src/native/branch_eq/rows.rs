//! What trace generation does for branches on field elements.
use crate::field::number_theory::{lemma_red_eq, lemma_red_range, lemma_red_small, red};
use crate::field::PrimeField32;
use crate::instructions::Instruction;
use crate::native::branch_eq::chip::{
    run_eq, BranchEqualCoreCols, NativeBranchEqualCoreRecord, NativeBranchEqualStep,
};
use crate::native::branch_eq::laws::law_difference_witness;
use vstd::prelude::*;

verus! {

/// The branch on equality is taken on equal elements and the branch on inequality on others. The
/// second value is the inverse of the difference where the elements differ: their product is one in
/// the field of order `p`.
pub proof fn law_run_eq<F: PrimeField32>(is_beq: bool, x: F, y: F, r: (bool, F))
    requires
        call_ensures(run_eq::<F>, (is_beq, x, y), r),
    ensures
        is_beq ==> r.0 == (x.val() == y.val()),
        !is_beq ==> r.0 == (x.val() != y.val()),
        x.val() == y.val() ==> r.1.val() == 0,
        x.val() != y.val() ==> ((x.val() - y.val()) * r.1.val()) % F::order() == 1,
{
    reveal(red);
    F::order_is_prime();
    x.val_is_canonical();
    y.val_is_canonical();
    law_difference_witness(x.val(), y.val(), F::order());
}

/// Executing a branch for the trace records its operands and where it goes. A branch that is taken
/// adds its immediate to the program counter in the field; one that is not taken goes one step on.
pub proof fn law_branch_step<F: PrimeField32>(
    step: NativeBranchEqualStep,
    pc: &mut u32,
    instruction: Instruction<F>,
    reads: [F; 2],
    r: NativeBranchEqualCoreRecord<F>,
)
    requires
        step.offset <= instruction.opcode.index <= step.offset + 1,
        *old(pc) < F::order(),
        call_ensures(
            NativeBranchEqualStep::execute::<F>,
            (&step, pc, &instruction, reads),
            r,
        ),
    ensures
        r.a == reads[0],
        r.b == reads[1],
        r.imm == instruction.c,
        r.is_beq == (instruction.opcode.index == step.offset),
        (reads[0].val() == reads[1].val()) == (instruction.opcode.index == step.offset) ==> {
            &&& *final(pc) < F::order()
            &&& (*final(pc) - *old(pc) - instruction.c.val()) % F::order() == 0
        },
        (reads[0].val() == reads[1].val()) != (instruction.opcode.index == step.offset)
            ==> *final(pc) == (*old(pc) + step.pc_step) % 0x1_0000_0000,
{
    let p = F::order();
    F::order_is_prime();
    let t = *old(pc) + instruction.c.val();
    lemma_red_range(t, p);
    lemma_red_small(red(t, p), p);
    lemma_red_eq(red(t, p), t, p);
    reveal(red);
}

/// A row is filled with the operands and the immediate of its record, with one flag set, and with
/// whether the branch is taken; the marker is a witness that the operands differ, if they do.
pub proof fn law_branch_filled_row<F: PrimeField32>(
    step: NativeBranchEqualStep,
    record: NativeBranchEqualCoreRecord<F>,
    cols: BranchEqualCoreCols<F, 1>,
)
    requires
        call_ensures(NativeBranchEqualStep::fill_trace_row::<F>, (&step, &record), cols),
    ensures
        ({
            let equal = record.a.val() == record.b.val();
            &&& cols.a[0].val() == record.a.val()
            &&& cols.b[0].val() == record.b.val()
            &&& cols.imm.val() == record.imm.val()
            &&& cols.opcode_beq_flag.val() == (if record.is_beq {
                1int
            } else {
                0
            })
            &&& cols.opcode_bne_flag.val() == (if record.is_beq {
                0int
            } else {
                1
            })
            &&& cols.cmp_result.val() == (if equal == record.is_beq {
                1int
            } else {
                0
            })
            &&& equal ==> cols.diff_inv_marker[0].val() == 0
            &&& !equal ==> ((record.a.val() - record.b.val()) * cols.diff_inv_marker[0].val())
                % F::order() == 1
        }),
{
    reveal(red);
    F::order_is_prime();
    record.a.val_is_canonical();
    record.b.val_is_canonical();
    law_difference_witness(record.a.val(), record.b.val(), F::order());
}

} // verus!
