//! What an instruction of the arithmetic and logic chip does to the registers.
use crate::arch::error::ExecutionError;
use crate::arch::execution_mode::{after_all, E1ExecutionCtx, E2ExecutionCtx, E2PreCompute};
use crate::arch::segment::VmSegmentState;
use crate::field::PrimeField32;
use crate::instructions::{BaseAluOpcode, Instruction, RV32_REGISTER_NUM_LIMBS};
use crate::limbs::{le_bytes, le_value, lemma_le_round_trip, limb_base};
use crate::rv32im::base_alu::arithmetic::alu_limbs;
use crate::rv32im::base_alu::execute::{
    alu_value, operand_is_imm, operands_valid, pre_computed, BaseAluFunc, BaseAluPreCompute,
};
use crate::rv32im::base_alu::laws::law_alu_modes_agree;
use crate::rv32im::base_alu::step::BaseAluStep;
use crate::system::memory::word_at;
use crate::system::words::{
    differ_only_at, immediate, lemma_immediate, lemma_number_read, lemma_number_written, number_at,
    reads_register, register_at, same_word, writes_register,
};
use vstd::prelude::*;

verus! {

/// The instruction was pre-computed and executed, and took the state from `before` to `after`.
pub open spec fn ran<F: PrimeField32, CTX, const LIMB_BITS: usize>(
    step: &BaseAluStep<RV32_REGISTER_NUM_LIMBS, LIMB_BITS>,
    inst: &Instruction<F>,
    func: BaseAluFunc,
    data: BaseAluPreCompute,
    before: &VmSegmentState<F, CTX>,
    after: &VmSegmentState<F, CTX>,
) -> bool {
    &&& operands_valid(inst)
    &&& func.is_imm == operand_is_imm(inst)
    &&& func.opcode.index() == inst.opcode.index - step.offset
    &&& pre_computed(inst, data)
    &&& data.executed(func.is_imm, func.opcode, before, after)
}

/// The instruction holds its second operand itself, in 24 bits.
pub open spec fn holds_immediate<F: PrimeField32>(inst: &Instruction<F>) -> bool {
    inst.e.val() == 0
}

/// Registers are named by their lowest byte.
pub open spec fn register_of(x: int) -> int {
    x % 0x100
}

/// The number that the second operand stands for.
pub open spec fn second_operand<F: PrimeField32>(inst: &Instruction<F>, mem: Seq<Seq<u32>>) -> int {
    if holds_immediate(inst) {
        immediate(inst.c.val())
    } else {
        number_at(mem[1], inst.c.val())
    }
}

/// The registers that an instruction names exist, and an immediate fits in 24 bits.
pub open spec fn operands_exist<F: PrimeField32>(inst: &Instruction<F>, mem: Seq<Seq<u32>>) -> bool {
    &&& register_at(mem, register_of(inst.a.val()))
    &&& register_at(mem, register_of(inst.b.val()))
    &&& holds_immediate(inst) ==> 0 <= inst.c.val() < 0x100_0000
    &&& !holds_immediate(inst) ==> register_at(mem, inst.c.val()) && inst.c.val() <= u32::MAX
}

/// The operands and the result as numbers in memory.
proof fn lemma_operands<F: PrimeField32, CTX, const LIMB_BITS: usize>(
    step: &BaseAluStep<RV32_REGISTER_NUM_LIMBS, LIMB_BITS>,
    inst: &Instruction<F>,
    func: BaseAluFunc,
    data: BaseAluPreCompute,
    before: &VmSegmentState<F, CTX>,
    after: &VmSegmentState<F, CTX>,
) -> (r: (u32, u32))
    requires
        ran(step, inst, func, data, before, after),
        operands_exist(inst, before.memory@),
    ensures
        r.0 == number_at(before.memory@[1], register_of(inst.b.val())),
        r.1 == second_operand(inst, before.memory@),
        alu_value(func.opcode, r.0, r.1) == number_at(
            after.memory@[1],
            register_of(inst.a.val()),
        ),
        differ_only_at(before.memory@, after.memory@, 1, register_of(inst.a.val()), 4),
        register_at(after.memory@, register_of(inst.a.val())),
        forall|i: int|
            0 <= i < 4 ==> #[trigger] after.memory@[1][register_of(inst.a.val()) + i] == le_bytes(
                alu_value(func.opcode, r.0, r.1),
            )[i],
{
    let mem = before.memory@;
    let x = word_at(mem, 1, data.b as u32);
    let y = data.rs2(func.is_imm, mem);
    inst.c.val_is_canonical();
    F::order_is_prime();
    lemma_number_read(mem, data.b as u32);
    if holds_immediate(inst) {
        lemma_immediate(inst.c.val() as u32);
    } else {
        lemma_number_read(mem, data.c);
    }
    lemma_number_written(mem, data.a as u32, alu_value(func.opcode, x, y));
    (x, y)
}

/// What is computed from two words: the equations of addition and subtraction in 32 bits, and the
/// bitwise operations.
proof fn lemma_equations(opcode: BaseAluOpcode, x: u32, y: u32)
    ensures
        ({
            let z = alu_value(opcode, x, y) as int;
            &&& opcode == BaseAluOpcode::ADD ==> same_word(z - y, x as int)
            &&& opcode == BaseAluOpcode::SUB ==> same_word(z + y, x as int)
            &&& opcode == BaseAluOpcode::XOR ==> z == x ^ y
            &&& opcode == BaseAluOpcode::OR ==> z == x | y
            &&& opcode == BaseAluOpcode::AND ==> z == x & y
        }),
{
}

/// Executing an addition or subtraction solves an equation: after `ADD` the result less the second
/// operand is the first operand, and after `SUB` the result plus the second operand is the first
/// operand, in 32 bits. The bitwise operations are those of machine words.
pub proof fn law_alu_instruction<F: PrimeField32, CTX, const LIMB_BITS: usize>(
    step: &BaseAluStep<RV32_REGISTER_NUM_LIMBS, LIMB_BITS>,
    inst: &Instruction<F>,
    func: BaseAluFunc,
    data: BaseAluPreCompute,
    before: &VmSegmentState<F, CTX>,
    after: &VmSegmentState<F, CTX>,
)
    requires
        ran(step, inst, func, data, before, after),
        operands_exist(inst, before.memory@),
    ensures
        ({
            let x = number_at(before.memory@[1], register_of(inst.b.val()));
            let y = second_operand(inst, before.memory@);
            let z = number_at(after.memory@[1], register_of(inst.a.val()));
            let opcode = inst.opcode.index - step.offset;
            &&& inst.d.val() == 1
            &&& inst.e.val() == 0 || inst.e.val() == 1
            &&& 0 <= z < 0x1_0000_0000
            &&& 0 <= opcode <= 4
            &&& opcode == 0 ==> same_word(z - y, x)
            &&& opcode == 1 ==> same_word(z + y, x)
            &&& opcode == 2 ==> z == (x as u32) ^ (y as u32)
            &&& opcode == 3 ==> z == (x as u32) | (y as u32)
            &&& opcode == 4 ==> z == (x as u32) & (y as u32)
        }),
{
    let (x, y) = lemma_operands(step, inst, func, data, before, after);
    lemma_equations(func.opcode, x, y);
    let opcode = func.opcode;
    assert(opcode.index() == 0 ==> opcode == BaseAluOpcode::ADD);
    assert(opcode.index() == 1 ==> opcode == BaseAluOpcode::SUB);
    assert(opcode.index() == 2 ==> opcode == BaseAluOpcode::XOR);
    assert(opcode.index() == 3 ==> opcode == BaseAluOpcode::OR);
    assert(opcode.index() == 4 ==> opcode == BaseAluOpcode::AND);
}

/// Executing an instruction changes the register of the result and no other cell of any address
/// space, moves the program counter on by four, counts the instruction and its immediate, and
/// leaves the streams, the generator and the exit code alone. The registers of the operands are
/// read and that of the result is written, in this order.
pub proof fn law_alu_effects<F: PrimeField32, CTX, const LIMB_BITS: usize>(
    step: &BaseAluStep<RV32_REGISTER_NUM_LIMBS, LIMB_BITS>,
    inst: &Instruction<F>,
    func: BaseAluFunc,
    data: BaseAluPreCompute,
    before: &VmSegmentState<F, CTX>,
    after: &VmSegmentState<F, CTX>,
)
    requires
        ran(step, inst, func, data, before, after),
        operands_exist(inst, before.memory@),
    ensures
        differ_only_at(before.memory@, after.memory@, 1, register_of(inst.a.val()), 4),
        register_at(after.memory@, register_of(inst.a.val())),
        after.pc == (before.pc + 4) % 0x1_0000_0000,
        after.instret == before.instret + 1,
        after.imm_cnt - before.imm_cnt == (if holds_immediate(inst) { 1int } else { 0 }),
        after.streams == before.streams,
        after.rng == before.rng,
        after.exit_code == before.exit_code,
        ({
            let ops = data.accesses(func.is_imm);
            let (a, b) = (register_of(inst.a.val()), register_of(inst.b.val()));
            if holds_immediate(inst) {
                ops.len() == 2 && reads_register(ops[0], b) && writes_register(ops[1], a)
            } else {
                &&& ops.len() == 3
                &&& reads_register(ops[0], b)
                &&& reads_register(ops[1], inst.c.val())
                &&& writes_register(ops[2], a)
            }
        }),
{
    let (x, y) = lemma_operands(step, inst, func, data, before, after);
}

/// Execution and trace generation agree: the result in the registers has the limbs that the limbs
/// of the operands yield in a row.
pub proof fn law_alu_execution_matches_rows<F: PrimeField32, CTX, const LIMB_BITS: usize>(
    step: &BaseAluStep<RV32_REGISTER_NUM_LIMBS, LIMB_BITS>,
    inst: &Instruction<F>,
    func: BaseAluFunc,
    data: BaseAluPreCompute,
    before: &VmSegmentState<F, CTX>,
    after: &VmSegmentState<F, CTX>,
    b: Seq<u8>,
    c: Seq<u8>,
)
    requires
        ran(step, inst, func, data, before, after),
        operands_exist(inst, before.memory@),
        b.len() == 4,
        c.len() == 4,
        b[0] + 0x100 * b[1] + 0x1_0000 * b[2] + 0x100_0000 * b[3] == number_at(
            before.memory@[1],
            register_of(inst.b.val()),
        ),
        c[0] + 0x100 * c[1] + 0x1_0000 * c[2] + 0x100_0000 * c[3] == second_operand(
            inst,
            before.memory@,
        ),
    ensures
        forall|i: int|
            0 <= i < 4 ==> #[trigger] after.memory@[1][register_of(inst.a.val()) + i] == alu_limbs(
                func.opcode,
                b,
                c,
                limb_base(8),
            )[i],
{
    let (x, y) = lemma_operands(step, inst, func, data, before, after);
    lemma_le_round_trip(x, b);
    lemma_le_round_trip(y, c);
    assert(le_value(b) == x && le_value(c) == y);
    law_alu_modes_agree(func.opcode, x, y);
}


/// Pre-computing an instruction and calling the function that is chosen runs the instruction, and tells
/// the context of its accesses.
pub proof fn law_alu_runs_e1<F: PrimeField32, CTX: E1ExecutionCtx, const LIMB_BITS: usize>(
    step: BaseAluStep<RV32_REGISTER_NUM_LIMBS, LIMB_BITS>,
    pc: u32,
    inst: Instruction<F>,
    func: BaseAluFunc,
    data: &mut BaseAluPreCompute,
    state: &mut VmSegmentState<F, CTX>,
)
    requires
        call_ensures(
            BaseAluStep::<RV32_REGISTER_NUM_LIMBS, LIMB_BITS>::pre_compute_e1::<F>,
            (&step, pc, &inst, data),
            Ok::<BaseAluFunc, ExecutionError>(func),
        ),
        call_ensures(BaseAluFunc::call_e1::<F, CTX>, (func, &*final(data), state), ()),
    ensures
        ran(&step, &inst, func, *final(data), &*old(state), &*final(state)),
        final(state).ctx.ctx_view() == after_all::<CTX>(
            old(state).ctx.ctx_view(),
            final(data).accesses(func.is_imm),
        ),
{
}

/// With the index of a chip it runs the same instruction; the context is told of one more row of
/// the chip first.
pub proof fn law_alu_runs_e2<F: PrimeField32, CTX: E2ExecutionCtx, const LIMB_BITS: usize>(
    step: BaseAluStep<RV32_REGISTER_NUM_LIMBS, LIMB_BITS>,
    chip_idx: usize,
    pc: u32,
    inst: Instruction<F>,
    func: BaseAluFunc,
    data: &mut E2PreCompute<BaseAluPreCompute>,
    state: &mut VmSegmentState<F, CTX>,
)
    requires
        chip_idx <= u32::MAX,
        call_ensures(
            BaseAluStep::<RV32_REGISTER_NUM_LIMBS, LIMB_BITS>::pre_compute_e2::<F>,
            (&step, chip_idx, pc, &inst, data),
            Ok::<BaseAluFunc, ExecutionError>(func),
        ),
        call_ensures(BaseAluFunc::call_e2::<F, CTX>, (func, &*final(data), state), ()),
    ensures
        ran(&step, &inst, func, final(data).data, &*old(state), &*final(state)),
        final(state).ctx.ctx_view() == after_all::<CTX>(
            CTX::after_height(old(state).ctx.ctx_view(), chip_idx, 1),
            final(data).data.accesses(func.is_imm),
        ),
{
}

/// An instruction is refused exactly if its first operand is no register, or its second operand is
/// neither a register nor an immediate.
pub proof fn law_alu_refused<F: PrimeField32, const LIMB_BITS: usize>(
    step: BaseAluStep<RV32_REGISTER_NUM_LIMBS, LIMB_BITS>,
    pc: u32,
    inst: Instruction<F>,
    data: &mut BaseAluPreCompute,
    r: Result<BaseAluFunc, ExecutionError>,
)
    requires
        call_ensures(
            BaseAluStep::<RV32_REGISTER_NUM_LIMBS, LIMB_BITS>::pre_compute_e1::<F>,
            (&step, pc, &inst, data),
            r,
        ),
    ensures
        r is Err <==> (inst.d.val() != 1 || !(inst.e.val() == 0 || inst.e.val() == 1)),
        r matches Err(e) ==> e == ExecutionError::InvalidInstruction(pc) && *final(data) == *old(
            data,
        ),
{
}

/// The same holds with the index of a chip.
pub proof fn law_alu_refused_e2<F: PrimeField32, const LIMB_BITS: usize>(
    step: BaseAluStep<RV32_REGISTER_NUM_LIMBS, LIMB_BITS>,
    chip_idx: usize,
    pc: u32,
    inst: Instruction<F>,
    data: &mut E2PreCompute<BaseAluPreCompute>,
    r: Result<BaseAluFunc, ExecutionError>,
)
    requires
        call_ensures(
            BaseAluStep::<RV32_REGISTER_NUM_LIMBS, LIMB_BITS>::pre_compute_e2::<F>,
            (&step, chip_idx, pc, &inst, data),
            r,
        ),
    ensures
        r is Err <==> (inst.d.val() != 1 || !(inst.e.val() == 0 || inst.e.val() == 1)),
        r matches Err(e) ==> e == ExecutionError::InvalidInstruction(pc) && final(data).data == old(
            data,
        ).data,
{
}

} // verus!
