//! Execution of field arithmetic.
use crate::arch::error::ExecutionError;
use crate::arch::execution_mode::{
    accepts_all, after_all, lemma_accepts_prefix, E1ExecutionCtx, E2ExecutionCtx, E2PreCompute,
    MemoryOperation,
};
use crate::arch::segment::{access, VmSegmentState};
use crate::field::number_theory::{fadd, fmul, fsub};
use crate::field::PrimeField32;
use crate::instructions::{
    FieldArithmeticOpcode, Instruction, DEFAULT_PC_STEP, NATIVE_AS, RV32_IMM_AS,
};
use crate::native::field_arithmetic::chip::{field_result, FieldArithmeticCoreStep};
use crate::native::{transmute_field_to_u32, transmute_u32_to_field};
use crate::system::memory::{block_holds, block_in, cells_of, written, MemoryCell};
use crate::system::native_adapter::util::lemma_cell_is_value;
use vstd::prelude::*;

verus! {

/// What is known of an instruction before it executes.
#[derive(Clone, Copy, Debug)]
pub struct FieldArithmeticPreCompute {
    /// The cell of the result.
    pub a: u32,
    /// The first operand if it is an immediate, otherwise its cell.
    pub b_or_imm: u32,
    /// The second operand if it is an immediate, otherwise its cell.
    pub c_or_imm: u32,
    /// The address space of the first operand.
    pub e: u32,
    /// The address space of the second operand.
    pub f: u32,
}

/// The value of an operand: the word itself if it is an immediate, otherwise what its cell holds.
pub open spec fn operand(is_imm: bool, mem: Seq<Seq<u32>>, addr_space: u32, word: u32) -> u32 {
    if is_imm {
        word
    } else {
        mem[addr_space as int][word as int]
    }
}

/// The access to an operand.
pub open spec fn operand_access(is_imm: bool, addr_space: u32, word: u32) -> Seq<MemoryOperation> {
    if is_imm {
        Seq::empty()
    } else {
        seq![access(addr_space, word, 1, false, false)]
    }
}

/// The operand is there.
pub open spec fn operand_ready<F: PrimeField32>(
    is_imm: bool,
    mem: Seq<Seq<u32>>,
    addr_space: u32,
    word: u32,
) -> bool {
    if is_imm {
        word < F::order()
    } else {
        block_holds::<F>(mem, addr_space, word, 1)
    }
}

impl FieldArithmeticPreCompute {
    pub open spec fn b_val(self, a_is_imm: bool, mem: Seq<Seq<u32>>) -> u32 {
        operand(a_is_imm, mem, self.e, self.b_or_imm)
    }

    pub open spec fn c_val(self, b_is_imm: bool, mem: Seq<Seq<u32>>) -> u32 {
        operand(b_is_imm, mem, self.f, self.c_or_imm)
    }

    /// The instruction divides by zero.
    pub open spec fn fails(
        self,
        opcode: FieldArithmeticOpcode,
        b_is_imm: bool,
        mem: Seq<Seq<u32>>,
    ) -> bool {
        opcode == FieldArithmeticOpcode::DIV && self.c_val(b_is_imm, mem) == 0
    }

    /// The accesses to memory.
    pub open spec fn accesses(
        self,
        opcode: FieldArithmeticOpcode,
        a_is_imm: bool,
        b_is_imm: bool,
        mem: Seq<Seq<u32>>,
    ) -> Seq<MemoryOperation> {
        let reads = operand_access(a_is_imm, self.e, self.b_or_imm) + operand_access(
            b_is_imm,
            self.f,
            self.c_or_imm,
        );
        if self.fails(opcode, b_is_imm, mem) {
            reads
        } else {
            reads.push(access(NATIVE_AS, self.a, 1, false, true))
        }
    }

    /// The state has the operands. Where the instruction succeeds, it can also take the result, and
    /// count the instruction.
    pub open spec fn ready<F: PrimeField32, CTX: E1ExecutionCtx>(
        self,
        opcode: FieldArithmeticOpcode,
        a_is_imm: bool,
        b_is_imm: bool,
        state: &VmSegmentState<F, CTX>,
        ctx: CTX::V,
    ) -> bool {
        &&& operand_ready::<F>(a_is_imm, state.memory@, self.e, self.b_or_imm)
        &&& operand_ready::<F>(b_is_imm, state.memory@, self.f, self.c_or_imm)
        &&& accepts_all::<CTX>(ctx, self.accesses(opcode, a_is_imm, b_is_imm, state.memory@))
        &&& !self.fails(opcode, b_is_imm, state.memory@) ==> {
            &&& block_in(state.memory@, NATIVE_AS, self.a, 1)
            &&& state.instret < u64::MAX
        }
    }

    /// The state after the instruction, apart from its context: a division by zero fails.
    pub open spec fn executed<F: PrimeField32, CTX>(
        self,
        opcode: FieldArithmeticOpcode,
        a_is_imm: bool,
        b_is_imm: bool,
        before: &VmSegmentState<F, CTX>,
        after: &VmSegmentState<F, CTX>,
    ) -> bool {
        let mem = before.memory@;
        &&& after.same_io(before)
        &&& after.imm_cnt == before.imm_cnt
        &&& if self.fails(opcode, b_is_imm, mem) {
            &&& after.memory == before.memory
            &&& after.pc == before.pc
            &&& after.instret == before.instret
            &&& after.exit_code == Err::<Option<u32>, ExecutionError>(
                ExecutionError::Fail { pc: before.pc },
            )
        } else {
            &&& after.memory@ == written(
                mem,
                NATIVE_AS,
                self.a,
                seq![
                    field_result(
                        opcode,
                        self.b_val(a_is_imm, mem) as int,
                        self.c_val(b_is_imm, mem) as int,
                        F::order(),
                    ) as u32,
                ],
            )
            &&& after.pc == (before.pc + DEFAULT_PC_STEP) % 0x1_0000_0000
            &&& after.instret == before.instret + 1
            &&& after.exit_code == before.exit_code
        }
    }
}

/// The opcode of a local index.
pub open spec fn opcode_of(index: u8) -> FieldArithmeticOpcode {
    if index == 0 {
        FieldArithmeticOpcode::ADD
    } else if index == 1 {
        FieldArithmeticOpcode::SUB
    } else if index == 2 {
        FieldArithmeticOpcode::MUL
    } else {
        FieldArithmeticOpcode::DIV
    }
}

/// Reads an operand.
pub fn read_operand<F: PrimeField32, CTX: E1ExecutionCtx, const IS_IMM: bool>(
    vm_state: &mut VmSegmentState<F, CTX>,
    addr_space: u32,
    word: u32,
) -> (r: F)
    requires
        operand_ready::<F>(IS_IMM, old(vm_state).memory@, addr_space, word),
        !IS_IMM ==> CTX::accepts(
            old(vm_state).ctx.ctx_view(),
            access(addr_space, word, 1, false, false),
        ),
    ensures
        r.val() == operand(IS_IMM, old(vm_state).memory@, addr_space, word),
        final(vm_state).same_registers(old(vm_state)),
        final(vm_state).memory == old(vm_state).memory,
        final(vm_state).ctx.ctx_view() == (if IS_IMM {
            old(vm_state).ctx.ctx_view()
        } else {
            CTX::after(old(vm_state).ctx.ctx_view(), access(addr_space, word, 1, false, false))
        }),
{
    if IS_IMM {
        transmute_u32_to_field(&word)
    } else {
        let data = vm_state.vm_read::<F, 1>(addr_space, word);
        proof {
            lemma_cell_is_value(data[0]);
            assert(cells_of(data@)[0] == data[0].cell());
        }
        data[0]
    }
}

fn execute_e12_impl<
    F: PrimeField32,
    CTX: E1ExecutionCtx,
    const A_IS_IMM: bool,
    const B_IS_IMM: bool,
    const OPCODE: u8,
>(pre_compute: &FieldArithmeticPreCompute, vm_state: &mut VmSegmentState<F, CTX>)
    requires
        OPCODE < 4,
        pre_compute.ready(
            opcode_of(OPCODE),
            A_IS_IMM,
            B_IS_IMM,
            old(vm_state),
            old(vm_state).ctx.ctx_view(),
        ),
    ensures
        pre_compute.executed(
            opcode_of(OPCODE),
            A_IS_IMM,
            B_IS_IMM,
            old(vm_state),
            final(vm_state),
        ),
        final(vm_state).ctx.ctx_view() == after_all::<CTX>(
            old(vm_state).ctx.ctx_view(),
            pre_compute.accesses(opcode_of(OPCODE), A_IS_IMM, B_IS_IMM, old(vm_state).memory@),
        ),
{
    let ghost mem = vm_state.memory@;
    let ghost v0 = vm_state.ctx.ctx_view();
    let ghost ops = pre_compute.accesses(opcode_of(OPCODE), A_IS_IMM, B_IS_IMM, mem);
    let ghost k: int = if A_IS_IMM {
        0
    } else {
        1
    };
    let ghost m: int = if B_IS_IMM {
        k
    } else {
        k + 1
    };
    proof {
        lemma_accepts_prefix::<CTX>(v0, ops, 0);
        lemma_accepts_prefix::<CTX>(v0, ops, k);
        lemma_accepts_prefix::<CTX>(v0, ops, m);
        assert(ops.take(0) =~= Seq::empty());
        assert(ops.take(ops.len() as int) =~= ops);
        reveal(fadd);
        reveal(fsub);
        reveal(fmul);
        F::order_is_prime();
    }
    let b_val: F = read_operand::<F, CTX, A_IS_IMM>(vm_state, pre_compute.e, pre_compute.b_or_imm);
    assert(vm_state.ctx.ctx_view() == after_all::<CTX>(v0, ops.take(k)));
    let c_val: F = read_operand::<F, CTX, B_IS_IMM>(vm_state, pre_compute.f, pre_compute.c_or_imm);
    assert(vm_state.ctx.ctx_view() == after_all::<CTX>(v0, ops.take(m)));
    let a_val = match OPCODE {
        0 => b_val.add(c_val),
        1 => b_val.sub(c_val),
        2 => b_val.mul(c_val),
        _ => {
            if c_val.is_zero() {
                vm_state.exit_code = Err(ExecutionError::Fail { pc: vm_state.pc });
                return;
            }
            b_val.mul(c_val.inverse())
        },
    };
    let data = [a_val];
    proof {
        lemma_cell_is_value(a_val);
        assert(cells_of(data@) =~= seq![
            field_result(
                opcode_of(OPCODE),
                pre_compute.b_val(A_IS_IMM, mem) as int,
                pre_compute.c_val(B_IS_IMM, mem) as int,
                F::order(),
            ) as u32,
        ]);
    }
    vm_state.vm_write::<F, 1>(NATIVE_AS, pre_compute.a, &data);
    vm_state.pc = vm_state.pc.wrapping_add(DEFAULT_PC_STEP);
    vm_state.instret = vm_state.instret + 1;
}

pub fn execute_e1_impl<
    F: PrimeField32,
    CTX: E1ExecutionCtx,
    const A_IS_IMM: bool,
    const B_IS_IMM: bool,
    const OPCODE: u8,
>(pre_compute: &FieldArithmeticPreCompute, vm_state: &mut VmSegmentState<F, CTX>)
    requires
        OPCODE < 4,
        pre_compute.ready(
            opcode_of(OPCODE),
            A_IS_IMM,
            B_IS_IMM,
            old(vm_state),
            old(vm_state).ctx.ctx_view(),
        ),
    ensures
        pre_compute.executed(
            opcode_of(OPCODE),
            A_IS_IMM,
            B_IS_IMM,
            old(vm_state),
            final(vm_state),
        ),
        final(vm_state).ctx.ctx_view() == after_all::<CTX>(
            old(vm_state).ctx.ctx_view(),
            pre_compute.accesses(opcode_of(OPCODE), A_IS_IMM, B_IS_IMM, old(vm_state).memory@),
        ),
{
    execute_e12_impl::<F, CTX, A_IS_IMM, B_IS_IMM, OPCODE>(pre_compute, vm_state);
}

/// Executes an instruction and tells the context that its chip has one more row.
pub fn execute_e2_impl<
    F: PrimeField32,
    CTX: E2ExecutionCtx,
    const A_IS_IMM: bool,
    const B_IS_IMM: bool,
    const OPCODE: u8,
>(pre_compute: &E2PreCompute<FieldArithmeticPreCompute>, vm_state: &mut VmSegmentState<F, CTX>)
    requires
        OPCODE < 4,
        CTX::accepts_height(old(vm_state).ctx.ctx_view(), pre_compute.chip_idx as usize, 1),
        pre_compute.data.ready(
            opcode_of(OPCODE),
            A_IS_IMM,
            B_IS_IMM,
            old(vm_state),
            CTX::after_height(old(vm_state).ctx.ctx_view(), pre_compute.chip_idx as usize, 1),
        ),
    ensures
        pre_compute.data.executed(
            opcode_of(OPCODE),
            A_IS_IMM,
            B_IS_IMM,
            old(vm_state),
            final(vm_state),
        ),
        final(vm_state).ctx.ctx_view() == after_all::<CTX>(
            CTX::after_height(old(vm_state).ctx.ctx_view(), pre_compute.chip_idx as usize, 1),
            pre_compute.data.accesses(
                opcode_of(OPCODE),
                A_IS_IMM,
                B_IS_IMM,
                old(vm_state).memory@,
            ),
        ),
{
    vm_state.ctx.on_height_change(pre_compute.chip_idx as usize, 1);
    execute_e12_impl::<F, CTX, A_IS_IMM, B_IS_IMM, OPCODE>(&pre_compute.data, vm_state);
}

/// The function that executes an instruction: chosen before the instruction runs, by its opcode
/// and by which operands are immediates.
#[derive(Clone, Copy, Debug, PartialEq, Eq, Structural)]
pub struct FieldArithmeticFunc {
    pub a_is_imm: bool,
    pub b_is_imm: bool,
    pub opcode: FieldArithmeticOpcode,
}

impl FieldArithmeticFunc {
    pub fn call_e1<F: PrimeField32, CTX: E1ExecutionCtx>(
        self,
        pre_compute: &FieldArithmeticPreCompute,
        vm_state: &mut VmSegmentState<F, CTX>,
    )
        requires
            pre_compute.ready(
                self.opcode,
                self.a_is_imm,
                self.b_is_imm,
                old(vm_state),
                old(vm_state).ctx.ctx_view(),
            ),
        ensures
            pre_compute.executed(
                self.opcode,
                self.a_is_imm,
                self.b_is_imm,
                old(vm_state),
                final(vm_state),
            ),
            final(vm_state).ctx.ctx_view() == after_all::<CTX>(
                old(vm_state).ctx.ctx_view(),
                pre_compute.accesses(
                    self.opcode,
                    self.a_is_imm,
                    self.b_is_imm,
                    old(vm_state).memory@,
                ),
            ),
    {
        match (self.opcode, self.a_is_imm, self.b_is_imm) {
            (FieldArithmeticOpcode::ADD, true, true) => execute_e1_impl::<F, CTX, true, true, 0>(
                pre_compute,
                vm_state,
            ),
            (FieldArithmeticOpcode::ADD, true, false) => execute_e1_impl::<F, CTX, true, false, 0>(
                pre_compute,
                vm_state,
            ),
            (FieldArithmeticOpcode::ADD, false, true) => execute_e1_impl::<F, CTX, false, true, 0>(
                pre_compute,
                vm_state,
            ),
            (FieldArithmeticOpcode::ADD, false, false) => execute_e1_impl::<F, CTX, false, false, 0>(
                pre_compute,
                vm_state,
            ),
            (FieldArithmeticOpcode::SUB, true, true) => execute_e1_impl::<F, CTX, true, true, 1>(
                pre_compute,
                vm_state,
            ),
            (FieldArithmeticOpcode::SUB, true, false) => execute_e1_impl::<F, CTX, true, false, 1>(
                pre_compute,
                vm_state,
            ),
            (FieldArithmeticOpcode::SUB, false, true) => execute_e1_impl::<F, CTX, false, true, 1>(
                pre_compute,
                vm_state,
            ),
            (FieldArithmeticOpcode::SUB, false, false) => execute_e1_impl::<F, CTX, false, false, 1>(
                pre_compute,
                vm_state,
            ),
            (FieldArithmeticOpcode::MUL, true, true) => execute_e1_impl::<F, CTX, true, true, 2>(
                pre_compute,
                vm_state,
            ),
            (FieldArithmeticOpcode::MUL, true, false) => execute_e1_impl::<F, CTX, true, false, 2>(
                pre_compute,
                vm_state,
            ),
            (FieldArithmeticOpcode::MUL, false, true) => execute_e1_impl::<F, CTX, false, true, 2>(
                pre_compute,
                vm_state,
            ),
            (FieldArithmeticOpcode::MUL, false, false) => execute_e1_impl::<F, CTX, false, false, 2>(
                pre_compute,
                vm_state,
            ),
            (FieldArithmeticOpcode::DIV, true, true) => execute_e1_impl::<F, CTX, true, true, 3>(
                pre_compute,
                vm_state,
            ),
            (FieldArithmeticOpcode::DIV, true, false) => execute_e1_impl::<F, CTX, true, false, 3>(
                pre_compute,
                vm_state,
            ),
            (FieldArithmeticOpcode::DIV, false, true) => execute_e1_impl::<F, CTX, false, true, 3>(
                pre_compute,
                vm_state,
            ),
            (FieldArithmeticOpcode::DIV, false, false) => execute_e1_impl::<F, CTX, false, false, 3>(
                pre_compute,
                vm_state,
            ),
        }
    }

    pub fn call_e2<F: PrimeField32, CTX: E2ExecutionCtx>(
        self,
        pre_compute: &E2PreCompute<FieldArithmeticPreCompute>,
        vm_state: &mut VmSegmentState<F, CTX>,
    )
        requires
            CTX::accepts_height(old(vm_state).ctx.ctx_view(), pre_compute.chip_idx as usize, 1),
            pre_compute.data.ready(
                self.opcode,
                self.a_is_imm,
                self.b_is_imm,
                old(vm_state),
                CTX::after_height(old(vm_state).ctx.ctx_view(), pre_compute.chip_idx as usize, 1),
            ),
        ensures
            pre_compute.data.executed(
                self.opcode,
                self.a_is_imm,
                self.b_is_imm,
                old(vm_state),
                final(vm_state),
            ),
            final(vm_state).ctx.ctx_view() == after_all::<CTX>(
                CTX::after_height(old(vm_state).ctx.ctx_view(), pre_compute.chip_idx as usize, 1),
                pre_compute.data.accesses(
                    self.opcode,
                    self.a_is_imm,
                    self.b_is_imm,
                    old(vm_state).memory@,
                ),
            ),
    {
        match (self.opcode, self.a_is_imm, self.b_is_imm) {
            (FieldArithmeticOpcode::ADD, true, true) => execute_e2_impl::<F, CTX, true, true, 0>(
                pre_compute,
                vm_state,
            ),
            (FieldArithmeticOpcode::ADD, true, false) => execute_e2_impl::<F, CTX, true, false, 0>(
                pre_compute,
                vm_state,
            ),
            (FieldArithmeticOpcode::ADD, false, true) => execute_e2_impl::<F, CTX, false, true, 0>(
                pre_compute,
                vm_state,
            ),
            (FieldArithmeticOpcode::ADD, false, false) => execute_e2_impl::<F, CTX, false, false, 0>(
                pre_compute,
                vm_state,
            ),
            (FieldArithmeticOpcode::SUB, true, true) => execute_e2_impl::<F, CTX, true, true, 1>(
                pre_compute,
                vm_state,
            ),
            (FieldArithmeticOpcode::SUB, true, false) => execute_e2_impl::<F, CTX, true, false, 1>(
                pre_compute,
                vm_state,
            ),
            (FieldArithmeticOpcode::SUB, false, true) => execute_e2_impl::<F, CTX, false, true, 1>(
                pre_compute,
                vm_state,
            ),
            (FieldArithmeticOpcode::SUB, false, false) => execute_e2_impl::<F, CTX, false, false, 1>(
                pre_compute,
                vm_state,
            ),
            (FieldArithmeticOpcode::MUL, true, true) => execute_e2_impl::<F, CTX, true, true, 2>(
                pre_compute,
                vm_state,
            ),
            (FieldArithmeticOpcode::MUL, true, false) => execute_e2_impl::<F, CTX, true, false, 2>(
                pre_compute,
                vm_state,
            ),
            (FieldArithmeticOpcode::MUL, false, true) => execute_e2_impl::<F, CTX, false, true, 2>(
                pre_compute,
                vm_state,
            ),
            (FieldArithmeticOpcode::MUL, false, false) => execute_e2_impl::<F, CTX, false, false, 2>(
                pre_compute,
                vm_state,
            ),
            (FieldArithmeticOpcode::DIV, true, true) => execute_e2_impl::<F, CTX, true, true, 3>(
                pre_compute,
                vm_state,
            ),
            (FieldArithmeticOpcode::DIV, true, false) => execute_e2_impl::<F, CTX, true, false, 3>(
                pre_compute,
                vm_state,
            ),
            (FieldArithmeticOpcode::DIV, false, true) => execute_e2_impl::<F, CTX, false, true, 3>(
                pre_compute,
                vm_state,
            ),
            (FieldArithmeticOpcode::DIV, false, false) => execute_e2_impl::<F, CTX, false, false, 3>(
                pre_compute,
                vm_state,
            ),
        }
    }
}

/// What is known of an instruction.
pub open spec fn pre_computed<F: PrimeField32>(
    inst: &Instruction<F>,
    data: FieldArithmeticPreCompute,
) -> bool {
    &&& data.a == inst.a.val()
    &&& data.b_or_imm == inst.b.val()
    &&& data.c_or_imm == inst.c.val()
    &&& data.e == inst.e.val()
    &&& data.f == inst.f.val()
}

/// The function that an instruction is executed by.
pub open spec fn chosen<F: PrimeField32>(inst: &Instruction<F>, func: FieldArithmeticFunc) -> bool {
    &&& func.a_is_imm == (inst.e.val() == RV32_IMM_AS)
    &&& func.b_is_imm == (inst.f.val() == RV32_IMM_AS)
    &&& func.opcode.index() == inst.opcode.index - FieldArithmeticOpcode::CLASS_OFFSET
}

impl FieldArithmeticCoreStep {
    /// Bytes of the pre-computed data.
    pub fn pre_compute_size(&self) -> (r: usize)
        ensures
            r as nat == vstd::layout::size_of::<FieldArithmeticPreCompute>(),
    {
        core::mem::size_of::<FieldArithmeticPreCompute>()
    }

    /// Bytes of the pre-computed data with the index of the chip.
    pub fn e2_pre_compute_size(&self) -> (r: usize)
        ensures
            r as nat == vstd::layout::size_of::<E2PreCompute<FieldArithmeticPreCompute>>(),
    {
        core::mem::size_of::<E2PreCompute<FieldArithmeticPreCompute>>()
    }

    /// Pre-computes an instruction, and chooses the function that executes it. Every instruction
    /// of this chip is valid.
    pub fn pre_compute_e1<F: PrimeField32>(
        &self,
        pc: u32,
        inst: &Instruction<F>,
        data: &mut FieldArithmeticPreCompute,
    ) -> (r: Result<FieldArithmeticFunc, ExecutionError>)
        requires
            Self::handles(inst.opcode.index),
        ensures
            r matches Ok(func) && chosen(inst, func),
            pre_computed(inst, *final(data)),
    {
        match self.pre_compute_impl(pc, inst, data) {
            Ok((a_is_imm, b_is_imm, opcode)) => Ok(
                FieldArithmeticFunc { a_is_imm, b_is_imm, opcode },
            ),
            Err(e) => Err(e),
        }
    }

    /// The same, with the index of the chip.
    pub fn pre_compute_e2<F: PrimeField32>(
        &self,
        chip_idx: usize,
        pc: u32,
        inst: &Instruction<F>,
        data: &mut E2PreCompute<FieldArithmeticPreCompute>,
    ) -> (r: Result<FieldArithmeticFunc, ExecutionError>)
        requires
            Self::handles(inst.opcode.index),
        ensures
            r matches Ok(func) && chosen(inst, func),
            pre_computed(inst, final(data).data),
            final(data).chip_idx == chip_idx as u32,
    {
        data.chip_idx = chip_idx as u32;
        match self.pre_compute_impl(pc, inst, &mut data.data) {
            Ok((a_is_imm, b_is_imm, opcode)) => Ok(
                FieldArithmeticFunc { a_is_imm, b_is_imm, opcode },
            ),
            Err(e) => Err(e),
        }
    }

    /// Returns which operands are immediates, and the opcode.
    fn pre_compute_impl<F: PrimeField32>(
        &self,
        _pc: u32,
        inst: &Instruction<F>,
        data: &mut FieldArithmeticPreCompute,
    ) -> (r: Result<(bool, bool, FieldArithmeticOpcode), ExecutionError>)
        requires
            Self::handles(inst.opcode.index),
        ensures
            r matches Ok((a_is_imm, b_is_imm, opcode)) && chosen(
                inst,
                (FieldArithmeticFunc { a_is_imm, b_is_imm, opcode }),
            ),
            pre_computed(inst, *final(data)),
    {
        let local_opcode = FieldArithmeticOpcode::from_usize(
            inst.opcode.local_opcode_idx(FieldArithmeticOpcode::CLASS_OFFSET),
        );
        let a = inst.a.as_canonical_u32();
        let e = inst.e.as_canonical_u32();
        let f = inst.f.as_canonical_u32();
        let a_is_imm = e == RV32_IMM_AS;
        let b_is_imm = f == RV32_IMM_AS;
        let b_or_imm = if a_is_imm {
            transmute_field_to_u32(&inst.b)
        } else {
            inst.b.as_canonical_u32()
        };
        let c_or_imm = if b_is_imm {
            transmute_field_to_u32(&inst.c)
        } else {
            inst.c.as_canonical_u32()
        };
        *data = FieldArithmeticPreCompute { a, b_or_imm, c_or_imm, e, f };
        Ok((a_is_imm, b_is_imm, local_opcode))
    }
}

} // verus!
