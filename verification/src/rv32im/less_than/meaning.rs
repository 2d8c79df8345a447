//! What an instruction of the comparison chip does to the registers.
use crate::arch::error::ExecutionError;
use crate::arch::execution_mode::{after_all, E1ExecutionCtx, E2ExecutionCtx, E2PreCompute};
use crate::arch::segment::VmSegmentState;
use crate::field::PrimeField32;
use crate::instructions::{Instruction, LessThanOpcode, RV32_REGISTER_NUM_LIMBS};
use crate::limbs::{le_bytes, le_value, lemma_le_round_trip};
use crate::rv32im::base_alu::execute::{operand_is_imm, operands_valid};
use crate::rv32im::base_alu::meaning::{
    holds_immediate, operands_exist, register_of, second_operand,
};
use crate::rv32im::less_than::comparison::{is_top_difference, less_at};
use crate::rv32im::less_than::execute::{
    less_than_value, pre_computed, LessThanFunc, LessThanPreCompute,
};
use crate::rv32im::less_than::laws::law_less_than_modes_agree;
use crate::rv32im::less_than::step::LessThanStep;
use crate::system::memory::word_at;
use crate::system::words::{
    differ_only_at, lemma_immediate, lemma_number_read, lemma_number_written, number_at,
    reads_register, register_at, twos_complement, writes_register,
};
use vstd::prelude::*;

verus! {

/// The instruction was pre-computed and executed, and took the state from `before` to `after`.
pub open spec fn ran<F: PrimeField32, CTX, const LIMB_BITS: usize>(
    step: &LessThanStep<RV32_REGISTER_NUM_LIMBS, LIMB_BITS>,
    inst: &Instruction<F>,
    func: LessThanFunc,
    data: LessThanPreCompute,
    before: &VmSegmentState<F, CTX>,
    after: &VmSegmentState<F, CTX>,
) -> bool {
    &&& operands_valid(inst)
    &&& step.handles(inst.opcode.index)
    &&& func.is_imm == operand_is_imm(inst)
    &&& func.is_sltu == (inst.opcode.index - step.offset == LessThanOpcode::SLTU.index())
    &&& pre_computed(inst, data)
    &&& data.executed(func.is_imm, func.is_sltu, before, after)
}

/// The operands and the result as numbers in memory.
proof fn lemma_operands<F: PrimeField32, CTX, const LIMB_BITS: usize>(
    step: &LessThanStep<RV32_REGISTER_NUM_LIMBS, LIMB_BITS>,
    inst: &Instruction<F>,
    func: LessThanFunc,
    data: LessThanPreCompute,
    before: &VmSegmentState<F, CTX>,
    after: &VmSegmentState<F, CTX>,
) -> (r: (u32, u32))
    requires
        ran(step, inst, func, data, before, after),
        operands_exist(inst, before.memory@),
    ensures
        r.0 == number_at(before.memory@[1], register_of(inst.b.val())),
        r.1 == second_operand(inst, before.memory@),
        less_than_value(func.is_sltu, r.0, r.1) == number_at(
            after.memory@[1],
            register_of(inst.a.val()),
        ),
        differ_only_at(before.memory@, after.memory@, 1, register_of(inst.a.val()), 4),
        register_at(after.memory@, register_of(inst.a.val())),
{
    let mem = before.memory@;
    let x = word_at(mem, 1, data.b as u32);
    let y = data.rs2(func.is_imm, mem);
    inst.c.val_is_canonical();
    F::order_is_prime();
    lemma_number_read(mem, data.b as u32);
    if holds_immediate(inst) {
        lemma_immediate(inst.c.val() as u32);
    } else {
        lemma_number_read(mem, data.c);
    }
    lemma_number_written(mem, data.a as u32, less_than_value(func.is_sltu, x, y));
    (x, y)
}

/// Executing a comparison leaves one in the register of the result if the first operand is less
/// than the second, otherwise zero: `SLT` compares what the operands stand for in two's
/// complement, `SLTU` the numbers without sign. Where the second operand comes from does not
/// matter.
pub proof fn law_comparison_instruction<F: PrimeField32, CTX, const LIMB_BITS: usize>(
    step: &LessThanStep<RV32_REGISTER_NUM_LIMBS, LIMB_BITS>,
    inst: &Instruction<F>,
    func: LessThanFunc,
    data: LessThanPreCompute,
    before: &VmSegmentState<F, CTX>,
    after: &VmSegmentState<F, CTX>,
)
    requires
        ran(step, inst, func, data, before, after),
        operands_exist(inst, before.memory@),
    ensures
        ({
            let x = number_at(before.memory@[1], register_of(inst.b.val()));
            let y = second_operand(inst, before.memory@);
            let z = number_at(after.memory@[1], register_of(inst.a.val()));
            let opcode = inst.opcode.index - step.offset;
            &&& inst.d.val() == 1
            &&& inst.e.val() == 0 || inst.e.val() == 1
            &&& opcode == 0 || opcode == 1
            &&& z == 0 || z == 1
            &&& opcode == 0 ==> (z == 1 <==> twos_complement(x, 0x1_0000_0000) < twos_complement(
                y,
                0x1_0000_0000,
            ))
            &&& opcode == 1 ==> (z == 1 <==> x < y)
        }),
{
    let (x, y) = lemma_operands(step, inst, func, data, before, after);
}

/// Two executions of the same comparison on the same numbers leave the same result, whether the
/// second operand comes from a register or from the instruction.
pub proof fn law_comparison_source_is_irrelevant<F: PrimeField32, CTX, const LIMB_BITS: usize>(
    step: &LessThanStep<RV32_REGISTER_NUM_LIMBS, LIMB_BITS>,
    inst: &Instruction<F>,
    func: LessThanFunc,
    data: LessThanPreCompute,
    before: &VmSegmentState<F, CTX>,
    after: &VmSegmentState<F, CTX>,
    other_inst: &Instruction<F>,
    other_func: LessThanFunc,
    other_data: LessThanPreCompute,
    other_before: &VmSegmentState<F, CTX>,
    other_after: &VmSegmentState<F, CTX>,
)
    requires
        ran(step, inst, func, data, before, after),
        operands_exist(inst, before.memory@),
        ran(step, other_inst, other_func, other_data, other_before, other_after),
        operands_exist(other_inst, other_before.memory@),
        inst.opcode.index == other_inst.opcode.index,
        number_at(before.memory@[1], register_of(inst.b.val())) == number_at(
            other_before.memory@[1],
            register_of(other_inst.b.val()),
        ),
        second_operand(inst, before.memory@) == second_operand(other_inst, other_before.memory@),
    ensures
        number_at(after.memory@[1], register_of(inst.a.val())) == number_at(
            other_after.memory@[1],
            register_of(other_inst.a.val()),
        ),
{
    let (x, y) = lemma_operands(step, inst, func, data, before, after);
    let (u, v) = lemma_operands(
        step,
        other_inst,
        other_func,
        other_data,
        other_before,
        other_after,
    );
}

/// Executing an instruction changes the register of the result and no other cell of any address
/// space, moves the program counter on by four, counts the instruction and its immediate, and
/// leaves the streams, the generator and the exit code alone. The registers of the operands are
/// read and that of the result is written, in this order.
pub proof fn law_comparison_effects<F: PrimeField32, CTX, const LIMB_BITS: usize>(
    step: &LessThanStep<RV32_REGISTER_NUM_LIMBS, LIMB_BITS>,
    inst: &Instruction<F>,
    func: LessThanFunc,
    data: LessThanPreCompute,
    before: &VmSegmentState<F, CTX>,
    after: &VmSegmentState<F, CTX>,
)
    requires
        ran(step, inst, func, data, before, after),
        operands_exist(inst, before.memory@),
    ensures
        differ_only_at(before.memory@, after.memory@, 1, register_of(inst.a.val()), 4),
        register_at(after.memory@, register_of(inst.a.val())),
        after.pc == before.pc + 4,
        after.instret == before.instret + 1,
        after.imm_cnt - before.imm_cnt == (if holds_immediate(inst) { 1int } else { 0 }),
        after.streams == before.streams,
        after.rng == before.rng,
        after.exit_code == before.exit_code,
        ({
            let ops = data.accesses(func.is_imm);
            let (a, b) = (register_of(inst.a.val()), register_of(inst.b.val()));
            if holds_immediate(inst) {
                ops.len() == 2 && reads_register(ops[0], b) && writes_register(ops[1], a)
            } else {
                &&& ops.len() == 3
                &&& reads_register(ops[0], b)
                &&& reads_register(ops[1], inst.c.val())
                &&& writes_register(ops[2], a)
            }
        }),
{
    let (x, y) = lemma_operands(step, inst, func, data, before, after);
}

/// Execution and trace generation agree: the register of the result holds one exactly if the
/// comparison of the limbs of the operands, at the most significant one in which they differ, says
/// less.
pub proof fn law_comparison_matches_rows<F: PrimeField32, CTX, const LIMB_BITS: usize>(
    step: &LessThanStep<RV32_REGISTER_NUM_LIMBS, LIMB_BITS>,
    inst: &Instruction<F>,
    func: LessThanFunc,
    data: LessThanPreCompute,
    before: &VmSegmentState<F, CTX>,
    after: &VmSegmentState<F, CTX>,
    b: Seq<u8>,
    c: Seq<u8>,
    top: int,
)
    requires
        ran(step, inst, func, data, before, after),
        operands_exist(inst, before.memory@),
        b.len() == 4,
        c.len() == 4,
        b[0] + 0x100 * b[1] + 0x1_0000 * b[2] + 0x100_0000 * b[3] == number_at(
            before.memory@[1],
            register_of(inst.b.val()),
        ),
        c[0] + 0x100 * c[1] + 0x1_0000 * c[2] + 0x100_0000 * c[3] == second_operand(
            inst,
            before.memory@,
        ),
        is_top_difference(b, c, top),
    ensures
        (number_at(after.memory@[1], register_of(inst.a.val())) == 1) == less_at(
            inst.opcode.index == step.offset,
            b,
            c,
            8,
            top,
        ),
{
    let (x, y) = lemma_operands(step, inst, func, data, before, after);
    lemma_le_round_trip(x, b);
    lemma_le_round_trip(y, c);
    assert(le_value(b) == x && le_value(c) == y);
    assert(b == le_bytes(x) && c == le_bytes(y));
    law_less_than_modes_agree(!func.is_sltu, x, y, top);
}


/// Pre-computing an instruction and calling the function that is chosen runs the instruction, and tells
/// the context of its accesses.
pub proof fn law_comparison_runs_e1<F: PrimeField32, CTX: E1ExecutionCtx, const LIMB_BITS: usize>(
    step: LessThanStep<RV32_REGISTER_NUM_LIMBS, LIMB_BITS>,
    pc: u32,
    inst: Instruction<F>,
    func: LessThanFunc,
    data: &mut LessThanPreCompute,
    state: &mut VmSegmentState<F, CTX>,
)
    requires
        step.handles(inst.opcode.index),
        call_ensures(
            LessThanStep::<RV32_REGISTER_NUM_LIMBS, LIMB_BITS>::pre_compute_e1::<F>,
            (&step, pc, &inst, data),
            Ok::<LessThanFunc, ExecutionError>(func),
        ),
        call_ensures(LessThanFunc::call_e1::<F, CTX>, (func, &*final(data), state), ()),
    ensures
        ran(&step, &inst, func, *final(data), &*old(state), &*final(state)),
        final(state).ctx.ctx_view() == after_all::<CTX>(
            old(state).ctx.ctx_view(),
            final(data).accesses(func.is_imm),
        ),
{
}

/// With the index of a chip it runs the same instruction; the context is told of one more row of
/// the chip first.
pub proof fn law_comparison_runs_e2<F: PrimeField32, CTX: E2ExecutionCtx, const LIMB_BITS: usize>(
    step: LessThanStep<RV32_REGISTER_NUM_LIMBS, LIMB_BITS>,
    chip_idx: usize,
    pc: u32,
    inst: Instruction<F>,
    func: LessThanFunc,
    data: &mut E2PreCompute<LessThanPreCompute>,
    state: &mut VmSegmentState<F, CTX>,
)
    requires
        chip_idx <= u32::MAX,
        step.handles(inst.opcode.index),
        call_ensures(
            LessThanStep::<RV32_REGISTER_NUM_LIMBS, LIMB_BITS>::pre_compute_e2::<F>,
            (&step, chip_idx, pc, &inst, data),
            Ok::<LessThanFunc, ExecutionError>(func),
        ),
        call_ensures(LessThanFunc::call_e2::<F, CTX>, (func, &*final(data), state), ()),
    ensures
        ran(&step, &inst, func, final(data).data, &*old(state), &*final(state)),
        final(state).ctx.ctx_view() == after_all::<CTX>(
            CTX::after_height(old(state).ctx.ctx_view(), chip_idx, 1),
            final(data).data.accesses(func.is_imm),
        ),
{
}

/// An instruction is refused exactly if its first operand is no register, or its second operand is
/// neither a register nor an immediate.
pub proof fn law_comparison_refused<F: PrimeField32, const LIMB_BITS: usize>(
    step: LessThanStep<RV32_REGISTER_NUM_LIMBS, LIMB_BITS>,
    pc: u32,
    inst: Instruction<F>,
    data: &mut LessThanPreCompute,
    r: Result<LessThanFunc, ExecutionError>,
)
    requires
        call_ensures(
            LessThanStep::<RV32_REGISTER_NUM_LIMBS, LIMB_BITS>::pre_compute_e1::<F>,
            (&step, pc, &inst, data),
            r,
        ),
    ensures
        r is Err <==> (inst.d.val() != 1 || !(inst.e.val() == 0 || inst.e.val() == 1)),
        r matches Err(e) ==> e == ExecutionError::InvalidInstruction(pc) && *final(data) == *old(
            data,
        ),
{
}

/// The same holds with the index of a chip.
pub proof fn law_comparison_refused_e2<F: PrimeField32, const LIMB_BITS: usize>(
    step: LessThanStep<RV32_REGISTER_NUM_LIMBS, LIMB_BITS>,
    chip_idx: usize,
    pc: u32,
    inst: Instruction<F>,
    data: &mut E2PreCompute<LessThanPreCompute>,
    r: Result<LessThanFunc, ExecutionError>,
)
    requires
        call_ensures(
            LessThanStep::<RV32_REGISTER_NUM_LIMBS, LIMB_BITS>::pre_compute_e2::<F>,
            (&step, chip_idx, pc, &inst, data),
            r,
        ),
    ensures
        r is Err <==> (inst.d.val() != 1 || !(inst.e.val() == 0 || inst.e.val() == 1)),
        r matches Err(e) ==> e == ExecutionError::InvalidInstruction(pc) && final(data).data == old(
            data,
        ).data,
{
}

} // verus!
