//! Execution of the comparison instructions on registers.
use crate::arch::error::ExecutionError;
use crate::arch::execution_mode::{
    accepts_all, after_all, lemma_accepts_prefix, E1ExecutionCtx, E2ExecutionCtx, E2PreCompute,
    MemoryOperation,
};
use crate::arch::segment::{access, VmSegmentState};
use crate::field::PrimeField32;
use crate::instructions::{
    imm_to_bytes, spec_imm_to_bytes, Instruction, LessThanOpcode, DEFAULT_PC_STEP, RV32_IMM_AS,
    RV32_REGISTER_AS, RV32_REGISTER_NUM_LIMBS,
};
use crate::limbs::{i32_from_le_bytes, le_value, u32_from_le_bytes, u32_to_le_bytes};
use crate::rv32im::base_alu::execute::{operand_is_imm, operands_valid};
use crate::rv32im::less_than::step::LessThanStep;
use crate::system::memory::{
    block_holds, block_in, lemma_word_cells, lemma_word_read, word_at, word_cells, written,
};
use vstd::prelude::*;

verus! {

/// The signed number of a register, in two's complement.
pub open spec fn signed(x: u32) -> int {
    if x < 0x8000_0000 {
        x as int
    } else {
        x - 0x1_0000_0000
    }
}

/// One if the first register is less than the second, otherwise zero.
pub open spec fn less_than_value(is_u32: bool, rs1: u32, rs2: u32) -> u32 {
    let less = if is_u32 {
        rs1 < rs2
    } else {
        signed(rs1) < signed(rs2)
    };
    if less {
        1
    } else {
        0
    }
}

/// What is known of an instruction before it executes.
#[derive(Clone, Copy, Debug)]
pub struct LessThanPreCompute {
    /// The second operand if it is an immediate, otherwise its register.
    pub c: u32,
    /// The register of the result.
    pub a: u8,
    /// The register of the first operand.
    pub b: u8,
}

impl LessThanPreCompute {
    /// The accesses to registers.
    pub open spec fn accesses(self, is_imm: bool) -> Seq<MemoryOperation> {
        let read_b = access(RV32_REGISTER_AS, self.b as u32, 4, false, false);
        let read_c = access(RV32_REGISTER_AS, self.c, 4, false, false);
        let write_a = access(RV32_REGISTER_AS, self.a as u32, 4, false, true);
        if is_imm {
            seq![read_b, write_a]
        } else {
            seq![read_b, read_c, write_a]
        }
    }

    /// The second operand.
    pub open spec fn rs2(self, is_imm: bool, mem: Seq<Seq<u32>>) -> u32 {
        if is_imm {
            self.c
        } else {
            word_at(mem, RV32_REGISTER_AS, self.c)
        }
    }

    /// The state has the registers, and can count the instruction.
    pub open spec fn ready<F, CTX: E1ExecutionCtx>(
        self,
        is_imm: bool,
        state: &VmSegmentState<F, CTX>,
        ctx: CTX::V,
    ) -> bool {
        &&& block_holds::<u8>(state.memory@, RV32_REGISTER_AS, self.b as u32, 4)
        &&& !is_imm ==> block_holds::<u8>(state.memory@, RV32_REGISTER_AS, self.c, 4)
        &&& block_in(state.memory@, RV32_REGISTER_AS, self.a as u32, 4)
        &&& accepts_all::<CTX>(ctx, self.accesses(is_imm))
        &&& state.pc + DEFAULT_PC_STEP <= u32::MAX
        &&& state.instret < u64::MAX
        &&& is_imm ==> state.imm_cnt < u64::MAX
    }

    /// The state after the instruction, apart from its context.
    pub open spec fn executed<F, CTX>(
        self,
        is_imm: bool,
        is_u32: bool,
        before: &VmSegmentState<F, CTX>,
        after: &VmSegmentState<F, CTX>,
    ) -> bool {
        &&& after.memory@ == written(
            before.memory@,
            RV32_REGISTER_AS,
            self.a as u32,
            word_cells(
                less_than_value(
                    is_u32,
                    word_at(before.memory@, RV32_REGISTER_AS, self.b as u32),
                    self.rs2(is_imm, before.memory@),
                ),
            ),
        )
        &&& after.pc == before.pc + DEFAULT_PC_STEP
        &&& after.instret == before.instret + 1
        &&& after.imm_cnt == before.imm_cnt + (if is_imm {
            1int
        } else {
            0
        })
        &&& after.same_io(before)
        &&& after.exit_code == before.exit_code
    }
}

fn execute_e12_impl<F, CTX: E1ExecutionCtx, const E_IS_IMM: bool, const IS_U32: bool>(
    pre_compute: &LessThanPreCompute,
    vm_state: &mut VmSegmentState<F, CTX>,
)
    requires
        pre_compute.ready(E_IS_IMM, old(vm_state), old(vm_state).ctx.ctx_view()),
    ensures
        pre_compute.executed(E_IS_IMM, IS_U32, old(vm_state), final(vm_state)),
        final(vm_state).ctx.ctx_view() == after_all::<CTX>(
            old(vm_state).ctx.ctx_view(),
            pre_compute.accesses(E_IS_IMM),
        ),
{
    let ghost mem = vm_state.memory@;
    let ghost v0 = vm_state.ctx.ctx_view();
    let ghost ops = pre_compute.accesses(E_IS_IMM);
    proof {
        lemma_accepts_prefix::<CTX>(v0, ops, 0);
        lemma_accepts_prefix::<CTX>(v0, ops, 1);
        if !E_IS_IMM {
            lemma_accepts_prefix::<CTX>(v0, ops, 2);
        }
        assert(ops.take(0) =~= Seq::empty());
        assert(ops.take(ops.len() as int) =~= ops);
    }
    let rs1 = vm_state.vm_read::<u8, 4>(RV32_REGISTER_AS, pre_compute.b as u32);
    proof {
        lemma_word_read(mem, RV32_REGISTER_AS, pre_compute.b as u32, rs1@);
    }
    let rs2 = if E_IS_IMM {
        vm_state.imm_cnt = vm_state.imm_cnt + 1;
        u32_to_le_bytes(pre_compute.c)
    } else {
        let rs2 = vm_state.vm_read::<u8, 4>(RV32_REGISTER_AS, pre_compute.c);
        proof {
            lemma_word_read(mem, RV32_REGISTER_AS, pre_compute.c, rs2@);
        }
        rs2
    };
    let less = if IS_U32 {
        u32_from_le_bytes(rs1) < u32_from_le_bytes(rs2)
    } else {
        i32_from_le_bytes(rs1) < i32_from_le_bytes(rs2)
    };
    let mut rd = [0u8;RV32_REGISTER_NUM_LIMBS];
    if less {
        rd[0] = 1;
    }
    proof {
        let value: u32 = if less {
            1
        } else {
            0
        };
        assert(rd@ =~= crate::limbs::le_bytes(value));
        lemma_word_cells(value, rd@);
    }
    vm_state.vm_write::<u8, 4>(RV32_REGISTER_AS, pre_compute.a as u32, &rd);
    vm_state.pc = vm_state.pc + DEFAULT_PC_STEP;
    vm_state.instret = vm_state.instret + 1;
}

pub fn execute_e1_impl<F, CTX: E1ExecutionCtx, const E_IS_IMM: bool, const IS_U32: bool>(
    pre_compute: &LessThanPreCompute,
    vm_state: &mut VmSegmentState<F, CTX>,
)
    requires
        pre_compute.ready(E_IS_IMM, old(vm_state), old(vm_state).ctx.ctx_view()),
    ensures
        pre_compute.executed(E_IS_IMM, IS_U32, old(vm_state), final(vm_state)),
        final(vm_state).ctx.ctx_view() == after_all::<CTX>(
            old(vm_state).ctx.ctx_view(),
            pre_compute.accesses(E_IS_IMM),
        ),
{
    execute_e12_impl::<F, CTX, E_IS_IMM, IS_U32>(pre_compute, vm_state);
}

/// Executes an instruction and tells the context that its chip has one more row.
pub fn execute_e2_impl<F, CTX: E2ExecutionCtx, const E_IS_IMM: bool, const IS_U32: bool>(
    pre_compute: &E2PreCompute<LessThanPreCompute>,
    vm_state: &mut VmSegmentState<F, CTX>,
)
    requires
        CTX::accepts_height(old(vm_state).ctx.ctx_view(), pre_compute.chip_idx as usize, 1),
        pre_compute.data.ready(
            E_IS_IMM,
            old(vm_state),
            CTX::after_height(old(vm_state).ctx.ctx_view(), pre_compute.chip_idx as usize, 1),
        ),
    ensures
        pre_compute.data.executed(E_IS_IMM, IS_U32, old(vm_state), final(vm_state)),
        final(vm_state).ctx.ctx_view() == after_all::<CTX>(
            CTX::after_height(old(vm_state).ctx.ctx_view(), pre_compute.chip_idx as usize, 1),
            pre_compute.data.accesses(E_IS_IMM),
        ),
{
    vm_state.ctx.on_height_change(pre_compute.chip_idx as usize, 1);
    execute_e12_impl::<F, CTX, E_IS_IMM, IS_U32>(&pre_compute.data, vm_state);
}

/// The function that executes an instruction: chosen before the instruction runs, by whether its
/// second operand is an immediate and by whether it compares unsigned numbers.
#[derive(Clone, Copy, Debug, PartialEq, Eq, Structural)]
pub struct LessThanFunc {
    pub is_imm: bool,
    pub is_sltu: bool,
}

impl LessThanFunc {
    pub fn call_e1<F, CTX: E1ExecutionCtx>(
        self,
        pre_compute: &LessThanPreCompute,
        vm_state: &mut VmSegmentState<F, CTX>,
    )
        requires
            pre_compute.ready(self.is_imm, old(vm_state), old(vm_state).ctx.ctx_view()),
        ensures
            pre_compute.executed(self.is_imm, self.is_sltu, old(vm_state), final(vm_state)),
            final(vm_state).ctx.ctx_view() == after_all::<CTX>(
                old(vm_state).ctx.ctx_view(),
                pre_compute.accesses(self.is_imm),
            ),
    {
        match (self.is_imm, self.is_sltu) {
            (true, true) => execute_e1_impl::<F, CTX, true, true>(pre_compute, vm_state),
            (true, false) => execute_e1_impl::<F, CTX, true, false>(pre_compute, vm_state),
            (false, true) => execute_e1_impl::<F, CTX, false, true>(pre_compute, vm_state),
            (false, false) => execute_e1_impl::<F, CTX, false, false>(pre_compute, vm_state),
        }
    }

    pub fn call_e2<F, CTX: E2ExecutionCtx>(
        self,
        pre_compute: &E2PreCompute<LessThanPreCompute>,
        vm_state: &mut VmSegmentState<F, CTX>,
    )
        requires
            CTX::accepts_height(old(vm_state).ctx.ctx_view(), pre_compute.chip_idx as usize, 1),
            pre_compute.data.ready(
                self.is_imm,
                old(vm_state),
                CTX::after_height(old(vm_state).ctx.ctx_view(), pre_compute.chip_idx as usize, 1),
            ),
        ensures
            pre_compute.data.executed(self.is_imm, self.is_sltu, old(vm_state), final(vm_state)),
            final(vm_state).ctx.ctx_view() == after_all::<CTX>(
                CTX::after_height(old(vm_state).ctx.ctx_view(), pre_compute.chip_idx as usize, 1),
                pre_compute.data.accesses(self.is_imm),
            ),
    {
        match (self.is_imm, self.is_sltu) {
            (true, true) => execute_e2_impl::<F, CTX, true, true>(pre_compute, vm_state),
            (true, false) => execute_e2_impl::<F, CTX, true, false>(pre_compute, vm_state),
            (false, true) => execute_e2_impl::<F, CTX, false, true>(pre_compute, vm_state),
            (false, false) => execute_e2_impl::<F, CTX, false, false>(pre_compute, vm_state),
        }
    }
}

/// What is known of an instruction with valid operands.
pub open spec fn pre_computed<F: PrimeField32>(
    inst: &Instruction<F>,
    data: LessThanPreCompute,
) -> bool {
    &&& data.a == inst.a.val() % 256
    &&& data.b == inst.b.val() % 256
    &&& data.c == (if operand_is_imm(inst) {
        le_value(spec_imm_to_bytes(inst.c.val() as u32))
    } else {
        inst.c.val()
    })
}

impl<const LIMB_BITS: usize> LessThanStep<RV32_REGISTER_NUM_LIMBS, LIMB_BITS> {
    /// Bytes of the pre-computed data.
    pub fn pre_compute_size(&self) -> (r: usize)
        ensures
            r as nat == vstd::layout::size_of::<LessThanPreCompute>(),
    {
        core::mem::size_of::<LessThanPreCompute>()
    }

    /// Bytes of the pre-computed data with the index of the chip.
    pub fn e2_pre_compute_size(&self) -> (r: usize)
        ensures
            r as nat == vstd::layout::size_of::<E2PreCompute<LessThanPreCompute>>(),
    {
        core::mem::size_of::<E2PreCompute<LessThanPreCompute>>()
    }

    /// Pre-computes an instruction, and chooses the function that executes it.
    pub fn pre_compute_e1<F: PrimeField32>(
        &self,
        pc: u32,
        inst: &Instruction<F>,
        data: &mut LessThanPreCompute,
    ) -> (r: Result<LessThanFunc, ExecutionError>)
        requires
            operands_valid(inst) ==> self.handles(inst.opcode.index),
            operands_valid(inst) && operand_is_imm(inst) ==> inst.c.val() < 0x100_0000,
        ensures
            match r {
                Ok(func) => {
                    &&& operands_valid(inst)
                    &&& func.is_imm == operand_is_imm(inst)
                    &&& func.is_sltu == (inst.opcode.index - self.offset
                        == LessThanOpcode::SLTU.index())
                    &&& pre_computed(inst, *final(data))
                },
                Err(e) => {
                    &&& !operands_valid(inst)
                    &&& e == ExecutionError::InvalidInstruction(pc)
                    &&& *final(data) == *old(data)
                },
            },
    {
        match self.pre_compute_impl(pc, inst, data) {
            Ok((is_imm, is_sltu)) => Ok(LessThanFunc { is_imm, is_sltu }),
            Err(e) => Err(e),
        }
    }

    /// The same, with the index of the chip.
    pub fn pre_compute_e2<F: PrimeField32>(
        &self,
        chip_idx: usize,
        pc: u32,
        inst: &Instruction<F>,
        data: &mut E2PreCompute<LessThanPreCompute>,
    ) -> (r: Result<LessThanFunc, ExecutionError>)
        requires
            operands_valid(inst) ==> self.handles(inst.opcode.index),
            operands_valid(inst) && operand_is_imm(inst) ==> inst.c.val() < 0x100_0000,
        ensures
            final(data).chip_idx == chip_idx as u32,
            match r {
                Ok(func) => {
                    &&& operands_valid(inst)
                    &&& func.is_imm == operand_is_imm(inst)
                    &&& func.is_sltu == (inst.opcode.index - self.offset
                        == LessThanOpcode::SLTU.index())
                    &&& pre_computed(inst, final(data).data)
                },
                Err(e) => {
                    &&& !operands_valid(inst)
                    &&& e == ExecutionError::InvalidInstruction(pc)
                    &&& final(data).data == old(data).data
                },
            },
    {
        data.chip_idx = chip_idx as u32;
        match self.pre_compute_impl(pc, inst, &mut data.data) {
            Ok((is_imm, is_sltu)) => Ok(LessThanFunc { is_imm, is_sltu }),
            Err(e) => Err(e),
        }
    }

    /// Returns whether the second operand is an immediate, and whether the comparison is unsigned.
    fn pre_compute_impl<F: PrimeField32>(
        &self,
        pc: u32,
        inst: &Instruction<F>,
        data: &mut LessThanPreCompute,
    ) -> (r: Result<(bool, bool), ExecutionError>)
        requires
            operands_valid(inst) ==> self.handles(inst.opcode.index),
            operands_valid(inst) && operand_is_imm(inst) ==> inst.c.val() < 0x100_0000,
        ensures
            match r {
                Ok((is_imm, is_sltu)) => {
                    &&& operands_valid(inst)
                    &&& is_imm == operand_is_imm(inst)
                    &&& is_sltu == (inst.opcode.index - self.offset == LessThanOpcode::SLTU.index())
                    &&& pre_computed(inst, *final(data))
                },
                Err(e) => {
                    &&& !operands_valid(inst)
                    &&& e == ExecutionError::InvalidInstruction(pc)
                    &&& *final(data) == *old(data)
                },
            },
    {
        let e = inst.e.as_canonical_u32();
        if inst.d.as_canonical_u32() != RV32_REGISTER_AS || !(e == RV32_IMM_AS || e
            == RV32_REGISTER_AS) {
            return Err(ExecutionError::InvalidInstruction(pc));
        }
        let local_opcode = LessThanOpcode::from_usize(inst.opcode.local_opcode_idx(self.offset));
        let is_imm = e == RV32_IMM_AS;
        let c = inst.c.as_canonical_u32();
        *data = LessThanPreCompute {
            c: if is_imm {
                u32_from_le_bytes(imm_to_bytes(c))
            } else {
                c
            },
            a: (inst.a.as_canonical_u32() % 256) as u8,
            b: (inst.b.as_canonical_u32() % 256) as u8,
        };
        Ok((is_imm, local_opcode == LessThanOpcode::SLTU))
    }
}

} // verus!
