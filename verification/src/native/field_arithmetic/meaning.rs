//! What an instruction of the field arithmetic chip does to memory.
use crate::arch::error::ExecutionError;
use crate::arch::execution_mode::{
    after_all, E1ExecutionCtx, E2ExecutionCtx, E2PreCompute, MemoryOperation,
};
use crate::arch::segment::VmSegmentState;
use crate::field::number_theory::{
    finv, is_prime, lemma_inverse, lemma_red_eq, lemma_red_mul, lemma_red_range, lemma_red_small,
    red,
};
use crate::field::PrimeField32;
use crate::instructions::{FieldArithmeticOpcode, Instruction};
use crate::native::field_arithmetic::chip::{field_result, FieldArithmeticCoreStep};
use crate::native::field_arithmetic::execute::{
    chosen, pre_computed, FieldArithmeticFunc, FieldArithmeticPreCompute,
};
use crate::system::words::differ_only_at;
use vstd::prelude::*;

verus! {

/// The instruction was pre-computed and executed, and took the state from `before` to `after`.
pub open spec fn ran<F: PrimeField32, CTX>(
    inst: &Instruction<F>,
    func: FieldArithmeticFunc,
    data: FieldArithmeticPreCompute,
    before: &VmSegmentState<F, CTX>,
    after: &VmSegmentState<F, CTX>,
) -> bool {
    &&& chosen(inst, func)
    &&& pre_computed(inst, data)
    &&& data.executed(func.opcode, func.a_is_imm, func.b_is_imm, before, after)
}

/// An operand: the number itself in address space zero, otherwise the cell that it names.
pub open spec fn value_of(mem: Seq<Seq<u32>>, space: int, x: int) -> int {
    if space == 0 {
        x
    } else {
        mem[space][x] as int
    }
}

/// The operand and its cell exist, and the cell holds an element of the field of order `p`.
pub open spec fn value_exists(mem: Seq<Seq<u32>>, space: int, x: int, p: int) -> bool {
    &&& 0 <= x <= u32::MAX
    &&& 0 <= space <= u32::MAX
    &&& space != 0 ==> space < mem.len() && x < mem[space].len()
    &&& 0 <= value_of(mem, space, x) < p
}

/// The first operand.
pub open spec fn first<F: PrimeField32>(inst: &Instruction<F>, mem: Seq<Seq<u32>>) -> int {
    value_of(mem, inst.e.val(), inst.b.val())
}

/// The second operand.
pub open spec fn second<F: PrimeField32>(inst: &Instruction<F>, mem: Seq<Seq<u32>>) -> int {
    value_of(mem, inst.f.val(), inst.c.val())
}

/// The operands and the cell of the result exist.
pub open spec fn operands_exist<F: PrimeField32>(inst: &Instruction<F>, mem: Seq<Seq<u32>>) -> bool {
    &&& value_exists(mem, inst.e.val(), inst.b.val(), F::order())
    &&& value_exists(mem, inst.f.val(), inst.c.val(), F::order())
    &&& mem.len() > 4
    &&& 0 <= inst.a.val() < mem[4].len()
}

/// The opcode is that of a division and the second operand is zero.
pub open spec fn divides_by_zero<F: PrimeField32>(
    inst: &Instruction<F>,
    mem: Seq<Seq<u32>>,
) -> bool {
    inst.opcode.index == 0x133 && second(inst, mem) == 0
}

/// Results in the field satisfy the equations of their operations.
pub proof fn law_field_result(op: FieldArithmeticOpcode, x: int, y: int, p: int)
    requires
        is_prime(p),
        0 <= x < p,
        0 <= y < p,
        op == FieldArithmeticOpcode::DIV ==> y != 0,
    ensures
        ({
            let z = field_result(op, x, y, p);
            &&& 0 <= z < p
            &&& op == FieldArithmeticOpcode::ADD ==> (z - x - y) % p == 0
            &&& op == FieldArithmeticOpcode::SUB ==> (z + y - x) % p == 0
            &&& op == FieldArithmeticOpcode::MUL ==> (z - x * y) % p == 0
            &&& op == FieldArithmeticOpcode::DIV ==> (z * y - x) % p == 0
        }),
{
    reveal(red);
    lemma_red_small(x, p);
    lemma_red_small(y, p);
    match op {
        FieldArithmeticOpcode::ADD => {
            lemma_red_range(x + y, p);
            lemma_red_small(red(x + y, p), p);
            lemma_red_eq(red(x + y, p), x + y, p);
        },
        FieldArithmeticOpcode::SUB => {
            lemma_red_range(x - y, p);
            lemma_red_small(red(x - y, p), p);
            lemma_red_eq(red(x - y, p), x - y, p);
        },
        FieldArithmeticOpcode::MUL => {
            lemma_red_range(x * y, p);
            lemma_red_small(red(x * y, p), p);
            lemma_red_eq(red(x * y, p), x * y, p);
        },
        FieldArithmeticOpcode::DIV => {
            let inv = finv(p, y);
            let z = red(x * inv, p);
            lemma_red_range(x * inv, p);
            lemma_inverse(p, y);
            lemma_red_mul(x * inv, y, p);
            lemma_red_mul(x, y * inv, p);
            assert((x * inv) * y == x * (y * inv)) by (nonlinear_arith);
            assert(x * 1 == x);
            lemma_red_eq(z * y, x, p);
        },
    }
}

/// Executing an instruction leaves in the cell of the result an element of the field that solves
/// the equation of the operation: after `ADD` the result is the sum, after `SUB` the result plus
/// the second operand is the first, after `MUL` it is the product, and after `DIV` the result times
/// the second operand is the first.
pub proof fn law_field_instruction<F: PrimeField32, CTX>(
    inst: &Instruction<F>,
    func: FieldArithmeticFunc,
    data: FieldArithmeticPreCompute,
    before: &VmSegmentState<F, CTX>,
    after: &VmSegmentState<F, CTX>,
)
    requires
        ran(inst, func, data, before, after),
        operands_exist(inst, before.memory@),
        !divides_by_zero(inst, before.memory@),
    ensures
        ({
            let x = first(inst, before.memory@);
            let y = second(inst, before.memory@);
            let z = after.memory@[4][inst.a.val()] as int;
            let p = F::order();
            &&& 0x130 <= inst.opcode.index <= 0x133
            &&& z < p
            &&& inst.opcode.index == 0x130 ==> (z - x - y) % p == 0
            &&& inst.opcode.index == 0x131 ==> (z + y - x) % p == 0
            &&& inst.opcode.index == 0x132 ==> (z - x * y) % p == 0
            &&& inst.opcode.index == 0x133 ==> (z * y - x) % p == 0
        }),
{
    F::order_is_prime();
    let x = first(inst, before.memory@);
    let y = second(inst, before.memory@);
    law_field_result(func.opcode, x, y, F::order());
    assert(after.memory@[4][inst.a.val()] == field_result(func.opcode, x, y, F::order()));
}

/// Execution and trace generation agree: the cell of the result holds what the operation yields in
/// a row on the same operands.
pub proof fn law_field_execution_matches_rows<F: PrimeField32, CTX>(
    inst: &Instruction<F>,
    func: FieldArithmeticFunc,
    data: FieldArithmeticPreCompute,
    before: &VmSegmentState<F, CTX>,
    after: &VmSegmentState<F, CTX>,
)
    requires
        ran(inst, func, data, before, after),
        operands_exist(inst, before.memory@),
        !divides_by_zero(inst, before.memory@),
    ensures
        after.memory@[4][inst.a.val()] == field_result(
            func.opcode,
            first(inst, before.memory@),
            second(inst, before.memory@),
            F::order(),
        ),
{
    F::order_is_prime();
    let x = first(inst, before.memory@);
    let y = second(inst, before.memory@);
    law_field_result(func.opcode, x, y, F::order());
}

/// Executing an instruction changes the cell of the result and no other, moves the program counter
/// on by four and counts the instruction. A division by zero changes nothing and fails the program
/// where it is.
pub proof fn law_field_effects<F: PrimeField32, CTX>(
    inst: &Instruction<F>,
    func: FieldArithmeticFunc,
    data: FieldArithmeticPreCompute,
    before: &VmSegmentState<F, CTX>,
    after: &VmSegmentState<F, CTX>,
)
    requires
        ran(inst, func, data, before, after),
        operands_exist(inst, before.memory@),
    ensures
        !divides_by_zero(inst, before.memory@) ==> {
            &&& differ_only_at(before.memory@, after.memory@, 4, inst.a.val(), 1)
            &&& after.pc == (before.pc + 4) % 0x1_0000_0000
            &&& after.instret == before.instret + 1
            &&& after.exit_code == before.exit_code
        },
        divides_by_zero(inst, before.memory@) ==> {
            &&& after.memory@ == before.memory@
            &&& after.pc == before.pc
            &&& after.instret == before.instret
            &&& after.exit_code == Err::<Option<u32>, ExecutionError>(
                ExecutionError::Fail { pc: before.pc },
            )
        },
        after.streams == before.streams,
        after.rng == before.rng,
        after.imm_cnt == before.imm_cnt,
{
}

/// A read of the cell of an operand.
pub open spec fn reads_operand(op: MemoryOperation, space: int, x: int) -> bool {
    op.address_space == space && op.ptr == x && op.size == 1 && !op.is_load_store && !op.is_write
}

/// The cells of the operands are read, those of immediates not, and then the cell of the result is
/// written, unless the instruction fails.
pub proof fn law_field_accesses<F: PrimeField32, CTX>(
    inst: &Instruction<F>,
    func: FieldArithmeticFunc,
    data: FieldArithmeticPreCompute,
    before: &VmSegmentState<F, CTX>,
    after: &VmSegmentState<F, CTX>,
)
    requires
        ran(inst, func, data, before, after),
        operands_exist(inst, before.memory@),
    ensures
        ({
            let ops = data.accesses(func.opcode, func.a_is_imm, func.b_is_imm, before.memory@);
            let k: int = if inst.e.val() == 0 { 0 } else { 1 };
            let m: int = k + (if inst.f.val() == 0 { 0int } else { 1 });
            &&& ops.len() == m + (if divides_by_zero(inst, before.memory@) { 0int } else { 1 })
            &&& k == 1 ==> reads_operand(ops[0], inst.e.val(), inst.b.val())
            &&& m == k + 1 ==> reads_operand(ops[k], inst.f.val(), inst.c.val())
            &&& ops.len() > m ==> {
                &&& ops[m].address_space == 4
                &&& ops[m].ptr == inst.a.val()
                &&& ops[m].size == 1
                &&& ops[m].is_write
                &&& !ops[m].is_load_store
            }
        }),
{
}


/// Pre-computing an instruction and calling the function that is chosen runs the instruction, and tells
/// the context of its accesses.
pub proof fn law_field_runs_e1<F: PrimeField32, CTX: E1ExecutionCtx>(
    step: FieldArithmeticCoreStep,
    pc: u32,
    inst: Instruction<F>,
    func: FieldArithmeticFunc,
    data: &mut FieldArithmeticPreCompute,
    state: &mut VmSegmentState<F, CTX>,
)
    requires
        call_ensures(
            FieldArithmeticCoreStep::pre_compute_e1::<F>,
            (&step, pc, &inst, data),
            Ok::<FieldArithmeticFunc, ExecutionError>(func),
        ),
        call_ensures(FieldArithmeticFunc::call_e1::<F, CTX>, (func, &*final(data), state), ()),
    ensures
        ran(&inst, func, *final(data), &*old(state), &*final(state)),
        final(state).ctx.ctx_view() == after_all::<CTX>(
            old(state).ctx.ctx_view(),
            final(data).accesses(func.opcode, func.a_is_imm, func.b_is_imm, old(state).memory@),
        ),
{
}

/// With the index of a chip it runs the same instruction; the context is told of one more row of
/// the chip first.
pub proof fn law_field_runs_e2<F: PrimeField32, CTX: E2ExecutionCtx>(
    step: FieldArithmeticCoreStep,
    chip_idx: usize,
    pc: u32,
    inst: Instruction<F>,
    func: FieldArithmeticFunc,
    data: &mut E2PreCompute<FieldArithmeticPreCompute>,
    state: &mut VmSegmentState<F, CTX>,
)
    requires
        chip_idx <= u32::MAX,
        call_ensures(
            FieldArithmeticCoreStep::pre_compute_e2::<F>,
            (&step, chip_idx, pc, &inst, data),
            Ok::<FieldArithmeticFunc, ExecutionError>(func),
        ),
        call_ensures(FieldArithmeticFunc::call_e2::<F, CTX>, (func, &*final(data), state), ()),
    ensures
        ran(&inst, func, final(data).data, &*old(state), &*final(state)),
        final(state).ctx.ctx_view() == after_all::<CTX>(
            CTX::after_height(old(state).ctx.ctx_view(), chip_idx, 1),
            final(data).data.accesses(func.opcode, func.a_is_imm, func.b_is_imm, old(state).memory@),
        ),
{
}

/// Every instruction of the chip is valid: its opcodes are the four from 0x130 on.
pub proof fn law_field_always_decodes<F: PrimeField32>(
    step: FieldArithmeticCoreStep,
    chip_idx: usize,
    pc: u32,
    inst: Instruction<F>,
    data: &mut FieldArithmeticPreCompute,
    data_e2: &mut E2PreCompute<FieldArithmeticPreCompute>,
    r: Result<FieldArithmeticFunc, ExecutionError>,
    r_e2: Result<FieldArithmeticFunc, ExecutionError>,
)
    requires
        0x130 <= inst.opcode.index < 0x134,
        call_ensures(
            FieldArithmeticCoreStep::pre_compute_e1::<F>,
            (&step, pc, &inst, data),
            r,
        ),
        call_ensures(
            FieldArithmeticCoreStep::pre_compute_e2::<F>,
            (&step, chip_idx, pc, &inst, data_e2),
            r_e2,
        ),
    ensures
        r is Ok,
        r_e2 is Ok,
        r == r_e2,
        *final(data) == final(data_e2).data,
        chip_idx <= u32::MAX ==> final(data_e2).chip_idx == chip_idx,
{
}

} // verus!
