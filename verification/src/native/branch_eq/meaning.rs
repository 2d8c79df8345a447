//! Where a branch on field elements goes.
use crate::arch::error::ExecutionError;
use crate::arch::execution_mode::{after_all, E1ExecutionCtx, E2ExecutionCtx, E2PreCompute};
use crate::arch::segment::VmSegmentState;
use crate::field::PrimeField32;
use crate::instructions::Instruction;
use crate::native::branch_eq::chip::NativeBranchEqualStep;
use crate::native::branch_eq::execute::{
    pre_computed, NativeBranchEqualFunc, NativeBranchEqualPreCompute,
};
use crate::native::field_arithmetic::meaning::{reads_operand, value_exists, value_of};
use vstd::prelude::*;

verus! {

/// The instruction was pre-computed and executed, and took the state from `before` to `after`.
pub open spec fn ran<F: PrimeField32, CTX>(
    step: &NativeBranchEqualStep,
    inst: &Instruction<F>,
    func: NativeBranchEqualFunc,
    data: NativeBranchEqualPreCompute,
    before: &VmSegmentState<F, CTX>,
    after: &VmSegmentState<F, CTX>,
) -> bool {
    &&& step.handles(inst.opcode.index)
    &&& step.chosen(inst, func)
    &&& pre_computed(inst, data)
    &&& data.executed(func.a_is_imm, func.b_is_imm, func.is_bne, before, after)
}

/// The space of an operand: immediates have none, and all others lie in the native address space.
pub open spec fn space_of(space: int) -> int {
    if space == 0 {
        0
    } else {
        4
    }
}

/// The operands are equal.
pub open spec fn operands_equal<F: PrimeField32>(inst: &Instruction<F>, mem: Seq<Seq<u32>>) -> bool {
    value_of(mem, space_of(inst.d.val()), inst.a.val()) == value_of(
        mem,
        space_of(inst.e.val()),
        inst.b.val(),
    )
}

/// The cells of the operands exist and hold elements of the field.
pub open spec fn operands_exist<F: PrimeField32>(inst: &Instruction<F>, mem: Seq<Seq<u32>>) -> bool {
    &&& value_exists(mem, space_of(inst.d.val()), inst.a.val(), F::order())
    &&& value_exists(mem, space_of(inst.e.val()), inst.b.val(), F::order())
}

/// The first opcode branches if the operands are equal, the second one if they differ. A branch
/// that is taken goes a distance that is the residue of the third operand and at most half the
/// order of the field in either direction; one that is not taken goes on to the next instruction.
/// In either case the program counter stays in 32 bits.
pub proof fn law_branch_target<F: PrimeField32, CTX>(
    step: &NativeBranchEqualStep,
    inst: &Instruction<F>,
    func: NativeBranchEqualFunc,
    data: NativeBranchEqualPreCompute,
    before: &VmSegmentState<F, CTX>,
    after: &VmSegmentState<F, CTX>,
    distance: int,
)
    requires
        ran(step, inst, func, data, before, after),
        operands_exist(inst, before.memory@),
        F::order() % 2 == 1,
        (distance - inst.c.val()) % F::order() == 0,
        -F::order() < 2 * distance < F::order(),
    ensures
        operands_equal(inst, before.memory@) == (inst.opcode.index == step.offset) ==> (after.pc
            - before.pc - distance) % 0x1_0000_0000 == 0,
        operands_equal(inst, before.memory@) != (inst.opcode.index == step.offset) ==> (after.pc
            - before.pc - 4) % 0x1_0000_0000 == 0,
        inst.opcode.index == step.offset || inst.opcode.index == step.offset + 1,
{
    let p = F::order();
    F::order_is_prime();
    inst.c.val_is_canonical();
    assert(data.imm == distance) by {
        let c = inst.c.val();
        let q = (distance - c) / p;
        assert(distance - c == p * q) by {
            vstd::arithmetic::div_mod::lemma_fundamental_div_mod(distance - c, p);
        }
        assert(q == 0 || q == -1) by (nonlinear_arith)
            requires
                distance - c == p * q,
                -p < 2 * distance < p,
                0 <= c < p,
        ;
        assert(p * -1 == -p);
    }
}

/// A branch changes the program counter, counts the instruction, and changes nothing else; the
/// cells of its operands are read, those of immediates not.
pub proof fn law_branch_effects<F: PrimeField32, CTX>(
    step: &NativeBranchEqualStep,
    inst: &Instruction<F>,
    func: NativeBranchEqualFunc,
    data: NativeBranchEqualPreCompute,
    before: &VmSegmentState<F, CTX>,
    after: &VmSegmentState<F, CTX>,
)
    requires
        ran(step, inst, func, data, before, after),
        operands_exist(inst, before.memory@),
    ensures
        after.memory@ == before.memory@,
        after.instret == before.instret + 1,
        after.streams == before.streams,
        after.rng == before.rng,
        after.exit_code == before.exit_code,
        after.imm_cnt == before.imm_cnt,
        ({
            let ops = data.accesses(func.a_is_imm, func.b_is_imm);
            let k: int = if inst.d.val() == 0 { 0 } else { 1 };
            let m: int = k + (if inst.e.val() == 0 { 0int } else { 1 });
            &&& ops.len() == m
            &&& k == 1 ==> reads_operand(ops[0], 4, inst.a.val())
            &&& m == k + 1 ==> reads_operand(ops[k], 4, inst.b.val())
        }),
{
}


/// Pre-computing a branch and calling the function that is chosen runs the instruction, and tells
/// the context of its accesses.
pub proof fn law_branch_runs_e1<F: PrimeField32, CTX: E1ExecutionCtx>(
    step: NativeBranchEqualStep,
    pc: u32,
    inst: Instruction<F>,
    func: NativeBranchEqualFunc,
    data: &mut NativeBranchEqualPreCompute,
    state: &mut VmSegmentState<F, CTX>,
)
    requires
        step.handles(inst.opcode.index),
        call_ensures(
            NativeBranchEqualStep::pre_compute_e1::<F>,
            (&step, pc, &inst, data),
            Ok::<NativeBranchEqualFunc, ExecutionError>(func),
        ),
        call_ensures(NativeBranchEqualFunc::call_e1::<F, CTX>, (func, &*final(data), state), ()),
    ensures
        ran(&step, &inst, func, *final(data), &*old(state), &*final(state)),
        final(state).ctx.ctx_view() == after_all::<CTX>(
            old(state).ctx.ctx_view(),
            final(data).accesses(func.a_is_imm, func.b_is_imm),
        ),
{
}

/// With the index of a chip it runs the same instruction; the context is told of one more row of
/// the chip first.
pub proof fn law_branch_runs_e2<F: PrimeField32, CTX: E2ExecutionCtx>(
    step: NativeBranchEqualStep,
    chip_idx: usize,
    pc: u32,
    inst: Instruction<F>,
    func: NativeBranchEqualFunc,
    data: &mut E2PreCompute<NativeBranchEqualPreCompute>,
    state: &mut VmSegmentState<F, CTX>,
)
    requires
        chip_idx <= u32::MAX,
        step.handles(inst.opcode.index),
        call_ensures(
            NativeBranchEqualStep::pre_compute_e2::<F>,
            (&step, chip_idx, pc, &inst, data),
            Ok::<NativeBranchEqualFunc, ExecutionError>(func),
        ),
        call_ensures(NativeBranchEqualFunc::call_e2::<F, CTX>, (func, &*final(data), state), ()),
    ensures
        ran(&step, &inst, func, final(data).data, &*old(state), &*final(state)),
        final(state).ctx.ctx_view() == after_all::<CTX>(
            CTX::after_height(old(state).ctx.ctx_view(), chip_idx, 1),
            final(data).data.accesses(func.a_is_imm, func.b_is_imm),
        ),
{
}

/// Every instruction of the chip is valid.
pub proof fn law_branch_always_decodes<F: PrimeField32>(
    step: NativeBranchEqualStep,
    chip_idx: usize,
    pc: u32,
    inst: Instruction<F>,
    data: &mut NativeBranchEqualPreCompute,
    data_e2: &mut E2PreCompute<NativeBranchEqualPreCompute>,
    r: Result<NativeBranchEqualFunc, ExecutionError>,
    r_e2: Result<NativeBranchEqualFunc, ExecutionError>,
)
    requires
        step.handles(inst.opcode.index),
        call_ensures(NativeBranchEqualStep::pre_compute_e1::<F>, (&step, pc, &inst, data), r),
        call_ensures(
            NativeBranchEqualStep::pre_compute_e2::<F>,
            (&step, chip_idx, pc, &inst, data_e2),
            r_e2,
        ),
    ensures
        r is Ok,
        r_e2 is Ok,
        r == r_e2,
        *final(data) == final(data_e2).data,
        chip_idx <= u32::MAX ==> final(data_e2).chip_idx == chip_idx,
{
}

} // verus!
