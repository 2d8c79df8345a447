//! Execution of branches on field elements.
use crate::arch::error::ExecutionError;
use crate::arch::execution_mode::{
    accepts_all, after_all, lemma_accepts_prefix, E1ExecutionCtx, E2ExecutionCtx, E2PreCompute,
    MemoryOperation,
};
use crate::arch::segment::VmSegmentState;
use crate::field::PrimeField32;
use crate::instructions::{
    BranchEqualOpcode, Instruction, DEFAULT_PC_STEP, NATIVE_AS, RV32_IMM_AS,
};
use crate::native::branch_eq::chip::{branch_taken, NativeBranchEqualStep};
use crate::native::field_arithmetic::execute::{
    operand, operand_access, operand_ready, read_operand,
};
use crate::native::transmute_field_to_u32;
use vstd::prelude::*;

verus! {

/// The representative of a residue that is nearest to zero; the positive one of two.
pub open spec fn signed_residue(c: int, order: int) -> int {
    if order - c < c {
        c - order
    } else {
        c
    }
}

/// What is known of an instruction before it executes.
#[derive(Clone, Copy, Debug)]
pub struct NativeBranchEqualPreCompute {
    /// How far the branch goes, forwards or backwards.
    pub imm: i64,
    /// The first operand if it is an immediate, otherwise its cell.
    pub a_or_imm: u32,
    /// The second operand if it is an immediate, otherwise its cell.
    pub b_or_imm: u32,
}

impl NativeBranchEqualPreCompute {
    /// The accesses to memory.
    pub open spec fn accesses(self, a_is_imm: bool, b_is_imm: bool) -> Seq<MemoryOperation> {
        operand_access(a_is_imm, NATIVE_AS, self.a_or_imm) + operand_access(
            b_is_imm,
            NATIVE_AS,
            self.b_or_imm,
        )
    }

    /// The state has the operands, and can count the instruction.
    pub open spec fn ready<F: PrimeField32, CTX: E1ExecutionCtx>(
        self,
        a_is_imm: bool,
        b_is_imm: bool,
        state: &VmSegmentState<F, CTX>,
        ctx: CTX::V,
    ) -> bool {
        &&& operand_ready::<F>(a_is_imm, state.memory@, NATIVE_AS, self.a_or_imm)
        &&& operand_ready::<F>(b_is_imm, state.memory@, NATIVE_AS, self.b_or_imm)
        &&& accepts_all::<CTX>(ctx, self.accesses(a_is_imm, b_is_imm))
        &&& -0x1_0000_0000 <= self.imm <= 0x1_0000_0000
        &&& state.instret < u64::MAX
    }

    /// The state after the instruction, apart from its context.
    pub open spec fn executed<F, CTX>(
        self,
        a_is_imm: bool,
        b_is_imm: bool,
        is_bne: bool,
        before: &VmSegmentState<F, CTX>,
        after: &VmSegmentState<F, CTX>,
    ) -> bool {
        let x = operand(a_is_imm, before.memory@, NATIVE_AS, self.a_or_imm);
        let y = operand(b_is_imm, before.memory@, NATIVE_AS, self.b_or_imm);
        &&& after.pc == (before.pc + (if branch_taken(!is_bne, x as int, y as int) {
            self.imm as int
        } else {
            DEFAULT_PC_STEP as int
        })) % 0x1_0000_0000
        &&& after.instret == before.instret + 1
        &&& after.memory == before.memory
        &&& after.same_io(before)
        &&& after.exit_code == before.exit_code
        &&& after.imm_cnt == before.imm_cnt
    }
}

fn execute_e12_impl<
    F: PrimeField32,
    CTX: E1ExecutionCtx,
    const A_IS_IMM: bool,
    const B_IS_IMM: bool,
    const IS_NE: bool,
>(pre_compute: &NativeBranchEqualPreCompute, vm_state: &mut VmSegmentState<F, CTX>)
    requires
        pre_compute.ready(A_IS_IMM, B_IS_IMM, old(vm_state), old(vm_state).ctx.ctx_view()),
    ensures
        pre_compute.executed(A_IS_IMM, B_IS_IMM, IS_NE, old(vm_state), final(vm_state)),
        final(vm_state).ctx.ctx_view() == after_all::<CTX>(
            old(vm_state).ctx.ctx_view(),
            pre_compute.accesses(A_IS_IMM, B_IS_IMM),
        ),
{
    let ghost v0 = vm_state.ctx.ctx_view();
    let ghost ops = pre_compute.accesses(A_IS_IMM, B_IS_IMM);
    let ghost k: int = if A_IS_IMM {
        0
    } else {
        1
    };
    proof {
        lemma_accepts_prefix::<CTX>(v0, ops, 0);
        lemma_accepts_prefix::<CTX>(v0, ops, k);
        assert(ops.take(0) =~= Seq::empty());
        assert(ops.take(ops.len() as int) =~= ops);
    }
    let rs1: F = read_operand::<F, CTX, A_IS_IMM>(vm_state, NATIVE_AS, pre_compute.a_or_imm);
    assert(vm_state.ctx.ctx_view() == after_all::<CTX>(v0, ops.take(k)));
    let rs2: F = read_operand::<F, CTX, B_IS_IMM>(vm_state, NATIVE_AS, pre_compute.b_or_imm);
    if rs1.equals(rs2) != IS_NE {
        let target: i64 = vm_state.pc as i64 + pre_compute.imm;
        let wrapped: i64 = if target < 0 {
            target + 0x1_0000_0000
        } else if target < 0x1_0000_0000 {
            target
        } else {
            target - 0x1_0000_0000
        };
        vm_state.pc = wrapped as u32;
    } else {
        vm_state.pc = vm_state.pc.wrapping_add(DEFAULT_PC_STEP);
    }
    vm_state.instret = vm_state.instret + 1;
}

pub fn execute_e1_impl<
    F: PrimeField32,
    CTX: E1ExecutionCtx,
    const A_IS_IMM: bool,
    const B_IS_IMM: bool,
    const IS_NE: bool,
>(pre_compute: &NativeBranchEqualPreCompute, vm_state: &mut VmSegmentState<F, CTX>)
    requires
        pre_compute.ready(A_IS_IMM, B_IS_IMM, old(vm_state), old(vm_state).ctx.ctx_view()),
    ensures
        pre_compute.executed(A_IS_IMM, B_IS_IMM, IS_NE, old(vm_state), final(vm_state)),
        final(vm_state).ctx.ctx_view() == after_all::<CTX>(
            old(vm_state).ctx.ctx_view(),
            pre_compute.accesses(A_IS_IMM, B_IS_IMM),
        ),
{
    execute_e12_impl::<F, CTX, A_IS_IMM, B_IS_IMM, IS_NE>(pre_compute, vm_state);
}

/// Executes an instruction and tells the context that its chip has one more row.
pub fn execute_e2_impl<
    F: PrimeField32,
    CTX: E2ExecutionCtx,
    const A_IS_IMM: bool,
    const B_IS_IMM: bool,
    const IS_NE: bool,
>(pre_compute: &E2PreCompute<NativeBranchEqualPreCompute>, vm_state: &mut VmSegmentState<F, CTX>)
    requires
        CTX::accepts_height(old(vm_state).ctx.ctx_view(), pre_compute.chip_idx as usize, 1),
        pre_compute.data.ready(
            A_IS_IMM,
            B_IS_IMM,
            old(vm_state),
            CTX::after_height(old(vm_state).ctx.ctx_view(), pre_compute.chip_idx as usize, 1),
        ),
    ensures
        pre_compute.data.executed(A_IS_IMM, B_IS_IMM, IS_NE, old(vm_state), final(vm_state)),
        final(vm_state).ctx.ctx_view() == after_all::<CTX>(
            CTX::after_height(old(vm_state).ctx.ctx_view(), pre_compute.chip_idx as usize, 1),
            pre_compute.data.accesses(A_IS_IMM, B_IS_IMM),
        ),
{
    vm_state.ctx.on_height_change(pre_compute.chip_idx as usize, 1);
    execute_e12_impl::<F, CTX, A_IS_IMM, B_IS_IMM, IS_NE>(&pre_compute.data, vm_state);
}

/// The function that executes an instruction: chosen before the instruction runs, by its opcode
/// and by which operands are immediates.
#[derive(Clone, Copy, Debug, PartialEq, Eq, Structural)]
pub struct NativeBranchEqualFunc {
    pub a_is_imm: bool,
    pub b_is_imm: bool,
    pub is_bne: bool,
}

impl NativeBranchEqualFunc {
    pub fn call_e1<F: PrimeField32, CTX: E1ExecutionCtx>(
        self,
        pre_compute: &NativeBranchEqualPreCompute,
        vm_state: &mut VmSegmentState<F, CTX>,
    )
        requires
            pre_compute.ready(
                self.a_is_imm,
                self.b_is_imm,
                old(vm_state),
                old(vm_state).ctx.ctx_view(),
            ),
        ensures
            pre_compute.executed(
                self.a_is_imm,
                self.b_is_imm,
                self.is_bne,
                old(vm_state),
                final(vm_state),
            ),
            final(vm_state).ctx.ctx_view() == after_all::<CTX>(
                old(vm_state).ctx.ctx_view(),
                pre_compute.accesses(self.a_is_imm, self.b_is_imm),
            ),
    {
        match (self.a_is_imm, self.b_is_imm, self.is_bne) {
            (true, true, true) => execute_e1_impl::<F, CTX, true, true, true>(
                pre_compute,
                vm_state,
            ),
            (true, true, false) => execute_e1_impl::<F, CTX, true, true, false>(
                pre_compute,
                vm_state,
            ),
            (true, false, true) => execute_e1_impl::<F, CTX, true, false, true>(
                pre_compute,
                vm_state,
            ),
            (true, false, false) => execute_e1_impl::<F, CTX, true, false, false>(
                pre_compute,
                vm_state,
            ),
            (false, true, true) => execute_e1_impl::<F, CTX, false, true, true>(
                pre_compute,
                vm_state,
            ),
            (false, true, false) => execute_e1_impl::<F, CTX, false, true, false>(
                pre_compute,
                vm_state,
            ),
            (false, false, true) => execute_e1_impl::<F, CTX, false, false, true>(
                pre_compute,
                vm_state,
            ),
            (false, false, false) => execute_e1_impl::<F, CTX, false, false, false>(
                pre_compute,
                vm_state,
            ),
        }
    }

    pub fn call_e2<F: PrimeField32, CTX: E2ExecutionCtx>(
        self,
        pre_compute: &E2PreCompute<NativeBranchEqualPreCompute>,
        vm_state: &mut VmSegmentState<F, CTX>,
    )
        requires
            CTX::accepts_height(old(vm_state).ctx.ctx_view(), pre_compute.chip_idx as usize, 1),
            pre_compute.data.ready(
                self.a_is_imm,
                self.b_is_imm,
                old(vm_state),
                CTX::after_height(old(vm_state).ctx.ctx_view(), pre_compute.chip_idx as usize, 1),
            ),
        ensures
            pre_compute.data.executed(
                self.a_is_imm,
                self.b_is_imm,
                self.is_bne,
                old(vm_state),
                final(vm_state),
            ),
            final(vm_state).ctx.ctx_view() == after_all::<CTX>(
                CTX::after_height(old(vm_state).ctx.ctx_view(), pre_compute.chip_idx as usize, 1),
                pre_compute.data.accesses(self.a_is_imm, self.b_is_imm),
            ),
    {
        match (self.a_is_imm, self.b_is_imm, self.is_bne) {
            (true, true, true) => execute_e2_impl::<F, CTX, true, true, true>(
                pre_compute,
                vm_state,
            ),
            (true, true, false) => execute_e2_impl::<F, CTX, true, true, false>(
                pre_compute,
                vm_state,
            ),
            (true, false, true) => execute_e2_impl::<F, CTX, true, false, true>(
                pre_compute,
                vm_state,
            ),
            (true, false, false) => execute_e2_impl::<F, CTX, true, false, false>(
                pre_compute,
                vm_state,
            ),
            (false, true, true) => execute_e2_impl::<F, CTX, false, true, true>(
                pre_compute,
                vm_state,
            ),
            (false, true, false) => execute_e2_impl::<F, CTX, false, true, false>(
                pre_compute,
                vm_state,
            ),
            (false, false, true) => execute_e2_impl::<F, CTX, false, false, true>(
                pre_compute,
                vm_state,
            ),
            (false, false, false) => execute_e2_impl::<F, CTX, false, false, false>(
                pre_compute,
                vm_state,
            ),
        }
    }
}

/// What is known of an instruction.
pub open spec fn pre_computed<F: PrimeField32>(
    inst: &Instruction<F>,
    data: NativeBranchEqualPreCompute,
) -> bool {
    &&& data.imm == signed_residue(inst.c.val(), F::order())
    &&& data.a_or_imm == inst.a.val()
    &&& data.b_or_imm == inst.b.val()
}

impl NativeBranchEqualStep {
    /// The function that an instruction is executed by.
    pub open spec fn chosen<F: PrimeField32>(
        &self,
        inst: &Instruction<F>,
        func: NativeBranchEqualFunc,
    ) -> bool {
        &&& func.a_is_imm == (inst.d.val() == RV32_IMM_AS)
        &&& func.b_is_imm == (inst.e.val() == RV32_IMM_AS)
        &&& func.is_bne == (inst.opcode.index - self.offset == BranchEqualOpcode::BNE.index())
    }

    /// Bytes of the pre-computed data.
    pub fn pre_compute_size(&self) -> (r: usize)
        ensures
            r as nat == vstd::layout::size_of::<NativeBranchEqualPreCompute>(),
    {
        core::mem::size_of::<NativeBranchEqualPreCompute>()
    }

    /// Bytes of the pre-computed data with the index of the chip.
    pub fn e2_pre_compute_size(&self) -> (r: usize)
        ensures
            r as nat == vstd::layout::size_of::<E2PreCompute<NativeBranchEqualPreCompute>>(),
    {
        core::mem::size_of::<E2PreCompute<NativeBranchEqualPreCompute>>()
    }

    /// Pre-computes an instruction, and chooses the function that executes it. Every instruction
    /// of this chip is valid.
    pub fn pre_compute_e1<F: PrimeField32>(
        &self,
        pc: u32,
        inst: &Instruction<F>,
        data: &mut NativeBranchEqualPreCompute,
    ) -> (r: Result<NativeBranchEqualFunc, ExecutionError>)
        requires
            self.handles(inst.opcode.index),
        ensures
            r matches Ok(func) && self.chosen(inst, func),
            pre_computed(inst, *final(data)),
    {
        match self.pre_compute_impl(pc, inst, data) {
            Ok((a_is_imm, b_is_imm, is_bne)) => Ok(
                NativeBranchEqualFunc { a_is_imm, b_is_imm, is_bne },
            ),
            Err(e) => Err(e),
        }
    }

    /// The same, with the index of the chip.
    pub fn pre_compute_e2<F: PrimeField32>(
        &self,
        chip_idx: usize,
        pc: u32,
        inst: &Instruction<F>,
        data: &mut E2PreCompute<NativeBranchEqualPreCompute>,
    ) -> (r: Result<NativeBranchEqualFunc, ExecutionError>)
        requires
            self.handles(inst.opcode.index),
        ensures
            r matches Ok(func) && self.chosen(inst, func),
            pre_computed(inst, final(data).data),
            final(data).chip_idx == chip_idx as u32,
    {
        data.chip_idx = chip_idx as u32;
        match self.pre_compute_impl(pc, inst, &mut data.data) {
            Ok((a_is_imm, b_is_imm, is_bne)) => Ok(
                NativeBranchEqualFunc { a_is_imm, b_is_imm, is_bne },
            ),
            Err(e) => Err(e),
        }
    }

    /// Returns which operands are immediates, and whether the branch is on inequality.
    fn pre_compute_impl<F: PrimeField32>(
        &self,
        _pc: u32,
        inst: &Instruction<F>,
        data: &mut NativeBranchEqualPreCompute,
    ) -> (r: Result<(bool, bool, bool), ExecutionError>)
        requires
            self.handles(inst.opcode.index),
        ensures
            r matches Ok((a_is_imm, b_is_imm, is_bne)) && self.chosen(
                inst,
                (NativeBranchEqualFunc { a_is_imm, b_is_imm, is_bne }),
            ),
            pre_computed(inst, *final(data)),
    {
        let local_opcode = BranchEqualOpcode::from_usize(
            inst.opcode.local_opcode_idx(self.offset),
        );
        let c = inst.c.as_canonical_u32();
        let order = F::order_u32();
        proof {
            inst.c.val_is_canonical();
        }
        let imm: i64 = if order - c < c {
            -((order - c) as i64)
        } else {
            c as i64
        };
        let a_is_imm = inst.d.as_canonical_u32() == RV32_IMM_AS;
        let b_is_imm = inst.e.as_canonical_u32() == RV32_IMM_AS;
        let a_or_imm = if a_is_imm {
            transmute_field_to_u32(&inst.a)
        } else {
            inst.a.as_canonical_u32()
        };
        let b_or_imm = if b_is_imm {
            transmute_field_to_u32(&inst.b)
        } else {
            inst.b.as_canonical_u32()
        };
        *data = NativeBranchEqualPreCompute { imm, a_or_imm, b_or_imm };
        Ok((a_is_imm, b_is_imm, local_opcode == BranchEqualOpcode::BNE))
    }
}

} // verus!
