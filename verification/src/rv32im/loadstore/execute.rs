//! Execution of loads and stores.
use crate::arch::error::ExecutionError;
use crate::arch::execution_mode::{
    accepts_all, after_all, lemma_accepts_prefix, E1ExecutionCtx, E2ExecutionCtx, E2PreCompute,
    MemoryOperation,
};
use crate::arch::segment::{access, VmSegmentState};
use crate::field::PrimeField32;
use crate::instructions::{
    Instruction, Rv32LoadStoreOpcode, DEFAULT_PC_STEP, NATIVE_AS, POINTER_BOUND, RV32_IMM_AS,
    RV32_REGISTER_AS, RV32_REGISTER_NUM_LIMBS,
};
use crate::limbs::u32_from_le_bytes;
use crate::rv32im::loadstore::step::LoadStoreStep;
use crate::system::memory::{
    block, block_holds, block_in, cells_of, lemma_word_read, word_at, written, MemoryCell,
};
use vstd::prelude::*;

verus! {

/// The access of `opcode` may start `shift` cells into an aligned word.
pub open spec fn shift_valid(opcode: Rv32LoadStoreOpcode, shift: int) -> bool {
    match opcode {
        Rv32LoadStoreOpcode::LOADHU | Rv32LoadStoreOpcode::STOREH => shift == 0 || shift == 2,
        _ => true,
    }
}

/// `opcode` keeps part of what the target holds.
pub open spec fn keeps_target(opcode: Rv32LoadStoreOpcode) -> bool {
    match opcode {
        Rv32LoadStoreOpcode::STOREH | Rv32LoadStoreOpcode::STOREB => true,
        _ => false,
    }
}

/// What `opcode` writes, over the cells `target`.
pub open spec fn placed(
    opcode: Rv32LoadStoreOpcode,
    target: Seq<u32>,
    read: Seq<u8>,
    shift: int,
) -> Seq<u32> {
    match opcode {
        Rv32LoadStoreOpcode::LOADW | Rv32LoadStoreOpcode::STOREW => read.map_values(
            |b: u8| b as u32,
        ),
        Rv32LoadStoreOpcode::LOADHU => target.update(0, read[shift] as u32).update(
            1,
            read[shift + 1] as u32,
        ),
        Rv32LoadStoreOpcode::LOADBU => target.update(0, read[shift] as u32),
        Rv32LoadStoreOpcode::STOREH => target.update(shift, read[0] as u32).update(
            shift + 1,
            read[1] as u32,
        ),
        _ => target.update(shift, read[0] as u32),
    }
}

/// Every byte is a value of the cell type.
pub open spec fn holds_bytes<T: MemoryCell>() -> bool {
    forall|b: u8| T::valid(#[trigger] (b as u32))
}

/// A load or store to cells of type `T`.
pub trait LoadStoreOp<T: MemoryCell> {
    const IS_LOAD: bool;

    const HOST_READ: bool;

    spec fn opcode() -> Rv32LoadStoreOpcode;

    proof fn constants()
        ensures
            Self::IS_LOAD == Self::opcode().is_load(),
            Self::HOST_READ == keeps_target(Self::opcode()),
    ;

    /// Returns whether the access is valid.
    fn compute_write_data(
        write_data: &mut [T; RV32_REGISTER_NUM_LIMBS],
        read_data: [u8; RV32_REGISTER_NUM_LIMBS],
        shift_amount: usize,
    ) -> (r: bool)
        requires
            shift_amount < 4,
            holds_bytes::<T>(),
        ensures
            r == shift_valid(Self::opcode(), shift_amount as int),
            r ==> cells_of(final(write_data)@) == placed(
                Self::opcode(),
                cells_of(old(write_data)@),
                read_data@,
                shift_amount as int,
            ),
            !r ==> *final(write_data) == *old(write_data),
    ;
}

/// Sets a cell to a byte.
fn put<T: MemoryCell>(
    write_data: &mut [T; RV32_REGISTER_NUM_LIMBS],
    i: usize,
    byte: u8,
)
    requires
        i < 4,
        holds_bytes::<T>(),
    ensures
        cells_of(final(write_data)@) == cells_of(old(write_data)@).update(i as int, byte as u32),
{
    assert(T::valid(byte as u32));
    write_data[i] = T::from_cell(byte as u32);
    assert(cells_of(write_data@) =~= cells_of(old(write_data)@).update(i as int, byte as u32));
}

/// Sets all cells to bytes.
fn put_all<T: MemoryCell>(
    write_data: &mut [T; RV32_REGISTER_NUM_LIMBS],
    bytes: [u8; RV32_REGISTER_NUM_LIMBS],
)
    requires
        holds_bytes::<T>(),
    ensures
        cells_of(final(write_data)@) == bytes@.map_values(|b: u8| b as u32),
{
    put(write_data, 0, bytes[0]);
    put(write_data, 1, bytes[1]);
    put(write_data, 2, bytes[2]);
    put(write_data, 3, bytes[3]);
    assert(cells_of(write_data@) =~= bytes@.map_values(|b: u8| b as u32));
}

pub struct LoadWOp;

pub struct LoadHUOp;

pub struct LoadBUOp;

pub struct StoreWOp;

pub struct StoreHOp;

pub struct StoreBOp;

impl<T: MemoryCell> LoadStoreOp<T> for LoadWOp {
    const IS_LOAD: bool = true;

    const HOST_READ: bool = false;

    open spec fn opcode() -> Rv32LoadStoreOpcode {
        Rv32LoadStoreOpcode::LOADW
    }

    proof fn constants() {
    }

    fn compute_write_data(
        write_data: &mut [T; RV32_REGISTER_NUM_LIMBS],
        read_data: [u8; RV32_REGISTER_NUM_LIMBS],
        _shift_amount: usize,
    ) -> (r: bool) {
        put_all(write_data, read_data);
        true
    }
}

impl<T: MemoryCell> LoadStoreOp<T> for LoadHUOp {
    const IS_LOAD: bool = true;

    const HOST_READ: bool = false;

    open spec fn opcode() -> Rv32LoadStoreOpcode {
        Rv32LoadStoreOpcode::LOADHU
    }

    proof fn constants() {
    }

    fn compute_write_data(
        write_data: &mut [T; RV32_REGISTER_NUM_LIMBS],
        read_data: [u8; RV32_REGISTER_NUM_LIMBS],
        shift_amount: usize,
    ) -> (r: bool) {
        if shift_amount != 0 && shift_amount != 2 {
            return false;
        }
        put(write_data, 0, read_data[shift_amount]);
        put(write_data, 1, read_data[shift_amount + 1]);
        true
    }
}

impl<T: MemoryCell> LoadStoreOp<T> for LoadBUOp {
    const IS_LOAD: bool = true;

    const HOST_READ: bool = false;

    open spec fn opcode() -> Rv32LoadStoreOpcode {
        Rv32LoadStoreOpcode::LOADBU
    }

    proof fn constants() {
    }

    fn compute_write_data(
        write_data: &mut [T; RV32_REGISTER_NUM_LIMBS],
        read_data: [u8; RV32_REGISTER_NUM_LIMBS],
        shift_amount: usize,
    ) -> (r: bool) {
        put(write_data, 0, read_data[shift_amount]);
        true
    }
}

impl<T: MemoryCell> LoadStoreOp<T> for StoreWOp {
    const IS_LOAD: bool = false;

    const HOST_READ: bool = false;

    open spec fn opcode() -> Rv32LoadStoreOpcode {
        Rv32LoadStoreOpcode::STOREW
    }

    proof fn constants() {
    }

    fn compute_write_data(
        write_data: &mut [T; RV32_REGISTER_NUM_LIMBS],
        read_data: [u8; RV32_REGISTER_NUM_LIMBS],
        _shift_amount: usize,
    ) -> (r: bool) {
        put_all(write_data, read_data);
        true
    }
}

impl<T: MemoryCell> LoadStoreOp<T> for StoreHOp {
    const IS_LOAD: bool = false;

    const HOST_READ: bool = true;

    open spec fn opcode() -> Rv32LoadStoreOpcode {
        Rv32LoadStoreOpcode::STOREH
    }

    proof fn constants() {
    }

    fn compute_write_data(
        write_data: &mut [T; RV32_REGISTER_NUM_LIMBS],
        read_data: [u8; RV32_REGISTER_NUM_LIMBS],
        shift_amount: usize,
    ) -> (r: bool) {
        if shift_amount != 0 && shift_amount != 2 {
            return false;
        }
        put(write_data, shift_amount, read_data[0]);
        put(write_data, shift_amount + 1, read_data[1]);
        true
    }
}

impl<T: MemoryCell> LoadStoreOp<T> for StoreBOp {
    const IS_LOAD: bool = false;

    const HOST_READ: bool = true;

    open spec fn opcode() -> Rv32LoadStoreOpcode {
        Rv32LoadStoreOpcode::STOREB
    }

    proof fn constants() {
    }

    fn compute_write_data(
        write_data: &mut [T; RV32_REGISTER_NUM_LIMBS],
        read_data: [u8; RV32_REGISTER_NUM_LIMBS],
        shift_amount: usize,
    ) -> (r: bool) {
        put(write_data, shift_amount, read_data[0]);
        true
    }
}

/// What is known of an instruction before it executes.
#[derive(Clone, Copy, Debug)]
pub struct LoadStorePreCompute {
    /// The offset that is added to the pointer.
    pub imm_extended: u32,
    /// The register that is loaded or stored.
    pub a: u8,
    /// The register of the pointer.
    pub b: u8,
    /// The address space of the pointer.
    pub e: u8,
}

impl LoadStorePreCompute {
    /// The place in memory, in cells.
    pub open spec fn ptr(self, mem: Seq<Seq<u32>>) -> u32 {
        ((word_at(mem, RV32_REGISTER_AS, self.b as u32) + self.imm_extended) % 0x1_0000_0000) as u32
    }

    /// How far the access starts into an aligned word.
    pub open spec fn shift(self, mem: Seq<Seq<u32>>) -> int {
        self.ptr(mem) as int % 4
    }

    /// The start of the aligned word.
    pub open spec fn aligned(self, mem: Seq<Seq<u32>>) -> u32 {
        (self.ptr(mem) - self.shift(mem)) as u32
    }

    /// Where the data comes from.
    pub open spec fn source(self, opcode: Rv32LoadStoreOpcode, mem: Seq<Seq<u32>>) -> (u32, u32) {
        if opcode.is_load() {
            (self.e as u32, self.aligned(mem))
        } else {
            (RV32_REGISTER_AS, self.a as u32)
        }
    }

    /// Where the data goes.
    pub open spec fn target(self, opcode: Rv32LoadStoreOpcode, mem: Seq<Seq<u32>>) -> (u32, u32) {
        if opcode.is_load() {
            (RV32_REGISTER_AS, self.a as u32)
        } else {
            (self.e as u32, self.aligned(mem))
        }
    }

    /// The accesses to memory, as far as the instruction succeeds.
    pub open spec fn accesses(
        self,
        opcode: Rv32LoadStoreOpcode,
        enabled: bool,
        mem: Seq<Seq<u32>>,
    ) -> Seq<MemoryOperation> {
        let (sa, sp) = self.source(opcode, mem);
        let (ta, tp) = self.target(opcode, mem);
        let reads = seq![
            access(RV32_REGISTER_AS, self.b as u32, 4, true, false),
            access(sa, sp, 4, true, false),
        ];
        if enabled && shift_valid(opcode, self.shift(mem)) {
            reads.push(access(ta, tp, 4, true, true))
        } else {
            reads
        }
    }

    /// The state has the registers and the memory. Where the instruction succeeds, it can also
    /// take what is written, and count the instruction.
    pub open spec fn ready<T: MemoryCell, F, CTX: E1ExecutionCtx>(
        self,
        opcode: Rv32LoadStoreOpcode,
        enabled: bool,
        state: &VmSegmentState<F, CTX>,
        ctx: CTX::V,
    ) -> bool {
        let mem = state.memory@;
        let (sa, sp) = self.source(opcode, mem);
        let (ta, tp) = self.target(opcode, mem);
        &&& holds_bytes::<T>()
        &&& block_holds::<u8>(mem, RV32_REGISTER_AS, self.b as u32, 4)
        &&& self.ptr(mem) < POINTER_BOUND
        &&& block_holds::<u8>(mem, sa, sp, 4)
        &&& keeps_target(opcode) ==> block_holds::<T>(mem, ta, tp, 4)
        &&& accepts_all::<CTX>(ctx, self.accesses(opcode, enabled, mem))
        &&& shift_valid(opcode, self.shift(mem)) ==> {
            &&& enabled ==> block_in(mem, ta, tp, 4) && T::suits(ta)
            &&& state.pc + DEFAULT_PC_STEP <= u32::MAX
            &&& state.instret < u64::MAX
        }
    }

    /// The cells that are written.
    pub open spec fn data(self, opcode: Rv32LoadStoreOpcode, mem: Seq<Seq<u32>>) -> Seq<u32> {
        let (sa, sp) = self.source(opcode, mem);
        let (ta, tp) = self.target(opcode, mem);
        placed(
            opcode,
            if keeps_target(opcode) {
                block(mem, ta, tp, 4)
            } else {
                seq![0u32, 0, 0, 0]
            },
            block(mem, sa, sp, 4).map_values(|c: u32| c as u8),
            self.shift(mem),
        )
    }

    /// The state after the instruction, apart from its context: it fails if the access is not
    /// aligned to its size.
    pub open spec fn executed<F, CTX>(
        self,
        opcode: Rv32LoadStoreOpcode,
        enabled: bool,
        before: &VmSegmentState<F, CTX>,
        after: &VmSegmentState<F, CTX>,
    ) -> bool {
        let mem = before.memory@;
        let (ta, tp) = self.target(opcode, mem);
        &&& after.same_io(before)
        &&& after.imm_cnt == before.imm_cnt
        &&& if shift_valid(opcode, self.shift(mem)) {
            &&& after.memory@ == (if enabled {
                written(mem, ta, tp, self.data(opcode, mem))
            } else {
                mem
            })
            &&& after.pc == before.pc + DEFAULT_PC_STEP
            &&& after.instret == before.instret + 1
            &&& after.exit_code == before.exit_code
        } else {
            &&& after.memory@ == mem
            &&& after.pc == before.pc
            &&& after.instret == before.instret
            &&& after.exit_code == Err::<Option<u32>, ExecutionError>(
                ExecutionError::Fail { pc: before.pc },
            )
        }
    }
}

fn execute_e12_impl<F, CTX: E1ExecutionCtx, T: MemoryCell, OP: LoadStoreOp<T>, const ENABLED: bool>(
    pre_compute: &LoadStorePreCompute,
    vm_state: &mut VmSegmentState<F, CTX>,
)
    requires
        pre_compute.ready::<T, F, CTX>(
            OP::opcode(),
            ENABLED,
            old(vm_state),
            old(vm_state).ctx.ctx_view(),
        ),
    ensures
        pre_compute.executed(OP::opcode(), ENABLED, old(vm_state), final(vm_state)),
        final(vm_state).ctx.ctx_view() == after_all::<CTX>(
            old(vm_state).ctx.ctx_view(),
            pre_compute.accesses(OP::opcode(), ENABLED, old(vm_state).memory@),
        ),
{
    let ghost mem = vm_state.memory@;
    let ghost v0 = vm_state.ctx.ctx_view();
    let ghost opcode = OP::opcode();
    let ghost ops = pre_compute.accesses(opcode, ENABLED, mem);
    let ghost (sa, sp) = pre_compute.source(opcode, mem);
    let ghost (ta, tp) = pre_compute.target(opcode, mem);
    proof {
        OP::constants();
        lemma_accepts_prefix::<CTX>(v0, ops, 0);
        lemma_accepts_prefix::<CTX>(v0, ops, 1);
        if ops.len() == 3 {
            lemma_accepts_prefix::<CTX>(v0, ops, 2);
        }
        assert(ops.take(0) =~= Seq::empty());
        assert(ops.take(ops.len() as int) =~= ops);
    }
    let rs1_bytes: [u8; RV32_REGISTER_NUM_LIMBS] = vm_state.vm_read_from_loadstore(
        RV32_REGISTER_AS,
        pre_compute.b as u32,
    );
    proof {
        lemma_word_read(mem, RV32_REGISTER_AS, pre_compute.b as u32, rs1_bytes@);
    }
    let rs1_val = u32_from_le_bytes(rs1_bytes);
    let ptr_val = rs1_val.wrapping_add(pre_compute.imm_extended);
    assert(ptr_val == pre_compute.ptr(mem));
    let shift_amount = ptr_val % 4;
    let ptr_val = ptr_val - shift_amount;
    let read_data: [u8; RV32_REGISTER_NUM_LIMBS] = if OP::IS_LOAD {
        vm_state.vm_read_from_loadstore(pre_compute.e as u32, ptr_val)
    } else {
        vm_state.vm_read_from_loadstore(RV32_REGISTER_AS, pre_compute.a as u32)
    };
    proof {
        assert(cells_of(read_data@) == block(mem, sa, sp, 4));
        assert(read_data@ =~= block(mem, sa, sp, 4).map_values(|c: u32| c as u8)) by {
            assert forall|i: int| 0 <= i < 4 implies read_data@[i] == block(mem, sa, sp, 4)[i] as u8 by {
                assert(cells_of(read_data@)[i] == read_data@[i] as u32);
            }
        }
    }
    let mut write_data: [T; RV32_REGISTER_NUM_LIMBS] = if OP::HOST_READ {
        vm_state.host_read(pre_compute.e as u32, ptr_val)
    } else {
        [T::default_cell();RV32_REGISTER_NUM_LIMBS]
    };
    assert(cells_of(write_data@) =~= if keeps_target(opcode) {
        block(mem, ta, tp, 4)
    } else {
        seq![0u32, 0, 0, 0]
    });
    if !OP::compute_write_data(&mut write_data, read_data, shift_amount as usize) {
        vm_state.exit_code = Err(ExecutionError::Fail { pc: vm_state.pc });
        return;
    }
    if ENABLED {
        if OP::IS_LOAD {
            vm_state.vm_write_from_loadstore(
                RV32_REGISTER_AS,
                pre_compute.a as u32,
                &write_data,
            );
        } else {
            vm_state.vm_write_from_loadstore(pre_compute.e as u32, ptr_val, &write_data);
        }
    }
    vm_state.pc = vm_state.pc + DEFAULT_PC_STEP;
    vm_state.instret = vm_state.instret + 1;
}

pub fn execute_e1_impl<
    F,
    CTX: E1ExecutionCtx,
    T: MemoryCell,
    OP: LoadStoreOp<T>,
    const ENABLED: bool,
>(pre_compute: &LoadStorePreCompute, vm_state: &mut VmSegmentState<F, CTX>)
    requires
        pre_compute.ready::<T, F, CTX>(
            OP::opcode(),
            ENABLED,
            old(vm_state),
            old(vm_state).ctx.ctx_view(),
        ),
    ensures
        pre_compute.executed(OP::opcode(), ENABLED, old(vm_state), final(vm_state)),
        final(vm_state).ctx.ctx_view() == after_all::<CTX>(
            old(vm_state).ctx.ctx_view(),
            pre_compute.accesses(OP::opcode(), ENABLED, old(vm_state).memory@),
        ),
{
    execute_e12_impl::<F, CTX, T, OP, ENABLED>(pre_compute, vm_state);
}

/// Executes an instruction and tells the context that its chip has one more row.
pub fn execute_e2_impl<
    F,
    CTX: E2ExecutionCtx,
    T: MemoryCell,
    OP: LoadStoreOp<T>,
    const ENABLED: bool,
>(pre_compute: &E2PreCompute<LoadStorePreCompute>, vm_state: &mut VmSegmentState<F, CTX>)
    requires
        CTX::accepts_height(old(vm_state).ctx.ctx_view(), pre_compute.chip_idx as usize, 1),
        pre_compute.data.ready::<T, F, CTX>(
            OP::opcode(),
            ENABLED,
            old(vm_state),
            CTX::after_height(old(vm_state).ctx.ctx_view(), pre_compute.chip_idx as usize, 1),
        ),
    ensures
        pre_compute.data.executed(OP::opcode(), ENABLED, old(vm_state), final(vm_state)),
        final(vm_state).ctx.ctx_view() == after_all::<CTX>(
            CTX::after_height(old(vm_state).ctx.ctx_view(), pre_compute.chip_idx as usize, 1),
            pre_compute.data.accesses(OP::opcode(), ENABLED, old(vm_state).memory@),
        ),
{
    vm_state.ctx.on_height_change(pre_compute.chip_idx as usize, 1);
    execute_e12_impl::<F, CTX, T, OP, ENABLED>(&pre_compute.data, vm_state);
}

/// The function that executes an instruction: chosen before the instruction runs, by its opcode,
/// by whether it writes at all, and by whether it stores to the native address space.
#[derive(Clone, Copy, Debug, PartialEq, Eq, Structural)]
pub struct LoadStoreFunc {
    pub opcode: Rv32LoadStoreOpcode,
    pub enabled: bool,
    pub is_native_store: bool,
}

impl LoadStoreFunc {
    /// The opcode is one that the chip executes.
    pub open spec fn wf(self) -> bool {
        self.opcode.is_load() || self.opcode.is_store()
    }

    /// The state has the registers and the memory. Where the instruction succeeds, it can also
    /// take what is written, and count the instruction.
    pub open spec fn ready<F: PrimeField32, CTX: E1ExecutionCtx>(
        self,
        pre_compute: &LoadStorePreCompute,
        state: &VmSegmentState<F, CTX>,
        ctx: CTX::V,
    ) -> bool {
        if self.opcode.is_store() && self.is_native_store {
            pre_compute.ready::<F, F, CTX>(self.opcode, self.enabled, state, ctx)
        } else {
            pre_compute.ready::<u8, F, CTX>(self.opcode, self.enabled, state, ctx)
        }
    }

    pub fn call_e1<F: PrimeField32, CTX: E1ExecutionCtx>(
        self,
        pre_compute: &LoadStorePreCompute,
        vm_state: &mut VmSegmentState<F, CTX>,
    )
        requires
            self.wf(),
            self.ready(pre_compute, old(vm_state), old(vm_state).ctx.ctx_view()),
        ensures
            pre_compute.executed(self.opcode, self.enabled, old(vm_state), final(vm_state)),
            final(vm_state).ctx.ctx_view() == after_all::<CTX>(
                old(vm_state).ctx.ctx_view(),
                pre_compute.accesses(self.opcode, self.enabled, old(vm_state).memory@),
            ),
    {
        match (self.opcode, self.enabled, self.is_native_store) {
            (Rv32LoadStoreOpcode::LOADW, true, _) => execute_e1_impl::<F, CTX, u8, LoadWOp, true>(
                pre_compute,
                vm_state,
            ),
            (Rv32LoadStoreOpcode::LOADW, false, _) => execute_e1_impl::<F, CTX, u8, LoadWOp, false>(
                pre_compute,
                vm_state,
            ),
            (Rv32LoadStoreOpcode::LOADHU, true, _) => execute_e1_impl::<F, CTX, u8, LoadHUOp, true>(
                pre_compute,
                vm_state,
            ),
            (Rv32LoadStoreOpcode::LOADHU, false, _) => execute_e1_impl::<F, CTX, u8, LoadHUOp, false>(
                pre_compute,
                vm_state,
            ),
            (Rv32LoadStoreOpcode::LOADBU, true, _) => execute_e1_impl::<F, CTX, u8, LoadBUOp, true>(
                pre_compute,
                vm_state,
            ),
            (Rv32LoadStoreOpcode::LOADBU, false, _) => execute_e1_impl::<F, CTX, u8, LoadBUOp, false>(
                pre_compute,
                vm_state,
            ),
            (Rv32LoadStoreOpcode::STOREW, true, false) => execute_e1_impl::<F, CTX, u8, StoreWOp, true>(
                pre_compute,
                vm_state,
            ),
            (Rv32LoadStoreOpcode::STOREW, false, false) => execute_e1_impl::<F, CTX, u8, StoreWOp, false>(
                pre_compute,
                vm_state,
            ),
            (Rv32LoadStoreOpcode::STOREW, true, true) => execute_e1_impl::<F, CTX, F, StoreWOp, true>(
                pre_compute,
                vm_state,
            ),
            (Rv32LoadStoreOpcode::STOREW, false, true) => execute_e1_impl::<F, CTX, F, StoreWOp, false>(
                pre_compute,
                vm_state,
            ),
            (Rv32LoadStoreOpcode::STOREH, true, false) => execute_e1_impl::<F, CTX, u8, StoreHOp, true>(
                pre_compute,
                vm_state,
            ),
            (Rv32LoadStoreOpcode::STOREH, false, false) => execute_e1_impl::<F, CTX, u8, StoreHOp, false>(
                pre_compute,
                vm_state,
            ),
            (Rv32LoadStoreOpcode::STOREH, true, true) => execute_e1_impl::<F, CTX, F, StoreHOp, true>(
                pre_compute,
                vm_state,
            ),
            (Rv32LoadStoreOpcode::STOREH, false, true) => execute_e1_impl::<F, CTX, F, StoreHOp, false>(
                pre_compute,
                vm_state,
            ),
            (Rv32LoadStoreOpcode::STOREB, true, false) => execute_e1_impl::<F, CTX, u8, StoreBOp, true>(
                pre_compute,
                vm_state,
            ),
            (Rv32LoadStoreOpcode::STOREB, false, false) => execute_e1_impl::<F, CTX, u8, StoreBOp, false>(
                pre_compute,
                vm_state,
            ),
            (Rv32LoadStoreOpcode::STOREB, true, true) => execute_e1_impl::<F, CTX, F, StoreBOp, true>(
                pre_compute,
                vm_state,
            ),
            (_, _, _) => execute_e1_impl::<F, CTX, F, StoreBOp, false>(
                pre_compute,
                vm_state,
            ),
        }
    }

    pub fn call_e2<F: PrimeField32, CTX: E2ExecutionCtx>(
        self,
        pre_compute: &E2PreCompute<LoadStorePreCompute>,
        vm_state: &mut VmSegmentState<F, CTX>,
    )
        requires
            self.wf(),
            CTX::accepts_height(old(vm_state).ctx.ctx_view(), pre_compute.chip_idx as usize, 1),
            self.ready(
                &pre_compute.data,
                old(vm_state),
                CTX::after_height(old(vm_state).ctx.ctx_view(), pre_compute.chip_idx as usize, 1),
            ),
        ensures
            pre_compute.data.executed(self.opcode, self.enabled, old(vm_state), final(vm_state)),
            final(vm_state).ctx.ctx_view() == after_all::<CTX>(
                CTX::after_height(old(vm_state).ctx.ctx_view(), pre_compute.chip_idx as usize, 1),
                pre_compute.data.accesses(self.opcode, self.enabled, old(vm_state).memory@),
            ),
    {
        match (self.opcode, self.enabled, self.is_native_store) {
            (Rv32LoadStoreOpcode::LOADW, true, _) => execute_e2_impl::<F, CTX, u8, LoadWOp, true>(
                pre_compute,
                vm_state,
            ),
            (Rv32LoadStoreOpcode::LOADW, false, _) => execute_e2_impl::<F, CTX, u8, LoadWOp, false>(
                pre_compute,
                vm_state,
            ),
            (Rv32LoadStoreOpcode::LOADHU, true, _) => execute_e2_impl::<F, CTX, u8, LoadHUOp, true>(
                pre_compute,
                vm_state,
            ),
            (Rv32LoadStoreOpcode::LOADHU, false, _) => execute_e2_impl::<F, CTX, u8, LoadHUOp, false>(
                pre_compute,
                vm_state,
            ),
            (Rv32LoadStoreOpcode::LOADBU, true, _) => execute_e2_impl::<F, CTX, u8, LoadBUOp, true>(
                pre_compute,
                vm_state,
            ),
            (Rv32LoadStoreOpcode::LOADBU, false, _) => execute_e2_impl::<F, CTX, u8, LoadBUOp, false>(
                pre_compute,
                vm_state,
            ),
            (Rv32LoadStoreOpcode::STOREW, true, false) => execute_e2_impl::<F, CTX, u8, StoreWOp, true>(
                pre_compute,
                vm_state,
            ),
            (Rv32LoadStoreOpcode::STOREW, false, false) => execute_e2_impl::<F, CTX, u8, StoreWOp, false>(
                pre_compute,
                vm_state,
            ),
            (Rv32LoadStoreOpcode::STOREW, true, true) => execute_e2_impl::<F, CTX, F, StoreWOp, true>(
                pre_compute,
                vm_state,
            ),
            (Rv32LoadStoreOpcode::STOREW, false, true) => execute_e2_impl::<F, CTX, F, StoreWOp, false>(
                pre_compute,
                vm_state,
            ),
            (Rv32LoadStoreOpcode::STOREH, true, false) => execute_e2_impl::<F, CTX, u8, StoreHOp, true>(
                pre_compute,
                vm_state,
            ),
            (Rv32LoadStoreOpcode::STOREH, false, false) => execute_e2_impl::<F, CTX, u8, StoreHOp, false>(
                pre_compute,
                vm_state,
            ),
            (Rv32LoadStoreOpcode::STOREH, true, true) => execute_e2_impl::<F, CTX, F, StoreHOp, true>(
                pre_compute,
                vm_state,
            ),
            (Rv32LoadStoreOpcode::STOREH, false, true) => execute_e2_impl::<F, CTX, F, StoreHOp, false>(
                pre_compute,
                vm_state,
            ),
            (Rv32LoadStoreOpcode::STOREB, true, false) => execute_e2_impl::<F, CTX, u8, StoreBOp, true>(
                pre_compute,
                vm_state,
            ),
            (Rv32LoadStoreOpcode::STOREB, false, false) => execute_e2_impl::<F, CTX, u8, StoreBOp, false>(
                pre_compute,
                vm_state,
            ),
            (Rv32LoadStoreOpcode::STOREB, true, true) => execute_e2_impl::<F, CTX, F, StoreBOp, true>(
                pre_compute,
                vm_state,
            ),
            (_, _, _) => execute_e2_impl::<F, CTX, F, StoreBOp, false>(
                pre_compute,
                vm_state,
            ),
        }
    }
}

/// The pointer lies in a register and the access goes to an address space; a store is enabled.
pub open spec fn operands_valid<F: PrimeField32>(inst: &Instruction<F>) -> bool {
    &&& inst.d.val() == RV32_REGISTER_AS
    &&& inst.e.val() != RV32_IMM_AS
    &&& forall|op: Rv32LoadStoreOpcode|
        op.index() == inst.opcode.index - Rv32LoadStoreOpcode::CLASS_OFFSET
            && #[trigger] op.is_store() ==> inst.f.val() != 0
}

/// The offset of an instruction, extended by its sign.
pub open spec fn extended_imm<F: PrimeField32>(inst: &Instruction<F>) -> int {
    inst.c.val() + inst.g.val() * 0xffff_0000
}

/// Where it matters, the opcode is a load or store, and the offset fits.
pub open spec fn decodable<F: PrimeField32>(inst: &Instruction<F>) -> bool {
    &&& inst.d.val() == RV32_REGISTER_AS && inst.e.val() != RV32_IMM_AS
        ==> Rv32LoadStoreOpcode::CLASS_OFFSET <= inst.opcode.index
        < Rv32LoadStoreOpcode::CLASS_OFFSET + 6
    &&& operands_valid(inst) ==> extended_imm(inst) <= u32::MAX
}

/// What is known of an instruction with valid operands.
pub open spec fn pre_computed<F: PrimeField32>(
    inst: &Instruction<F>,
    data: LoadStorePreCompute,
) -> bool {
    &&& data.imm_extended == extended_imm(inst)
    &&& data.a == inst.a.val() % 256
    &&& data.b == inst.b.val() % 256
    &&& data.e == inst.e.val() % 256
}

/// The function that an instruction is executed by.
pub open spec fn chosen<F: PrimeField32>(inst: &Instruction<F>, func: LoadStoreFunc) -> bool {
    &&& func.wf()
    &&& func.opcode.index() == inst.opcode.index - Rv32LoadStoreOpcode::CLASS_OFFSET
    &&& func.enabled == (inst.f.val() != 0)
    &&& func.is_native_store == (inst.e.val() == NATIVE_AS)
}

impl<const NUM_CELLS: usize> LoadStoreStep<NUM_CELLS> {
    /// Bytes of the pre-computed data.
    pub fn pre_compute_size(&self) -> (r: usize)
        ensures
            r as nat == vstd::layout::size_of::<LoadStorePreCompute>(),
    {
        core::mem::size_of::<LoadStorePreCompute>()
    }

    /// Bytes of the pre-computed data with the index of the chip.
    pub fn e2_pre_compute_size(&self) -> (r: usize)
        ensures
            r as nat == vstd::layout::size_of::<E2PreCompute<LoadStorePreCompute>>(),
    {
        core::mem::size_of::<E2PreCompute<LoadStorePreCompute>>()
    }

    /// Pre-computes an instruction, and chooses the function that executes it.
    pub fn pre_compute_e1<F: PrimeField32>(
        &self,
        pc: u32,
        inst: &Instruction<F>,
        data: &mut LoadStorePreCompute,
    ) -> (r: Result<LoadStoreFunc, ExecutionError>)
        requires
            decodable(inst),
        ensures
            match r {
                Ok(func) => {
                    &&& operands_valid(inst)
                    &&& chosen(inst, func)
                    &&& pre_computed(inst, *final(data))
                },
                Err(e) => {
                    &&& !operands_valid(inst)
                    &&& e == ExecutionError::InvalidInstruction(pc)
                    &&& *final(data) == *old(data)
                },
            },
    {
        match self.pre_compute_impl(pc, inst, data) {
            Ok((opcode, enabled, is_native_store)) => Ok(
                LoadStoreFunc { opcode, enabled, is_native_store },
            ),
            Err(e) => Err(e),
        }
    }

    /// The same, with the index of the chip.
    pub fn pre_compute_e2<F: PrimeField32>(
        &self,
        chip_idx: usize,
        pc: u32,
        inst: &Instruction<F>,
        data: &mut E2PreCompute<LoadStorePreCompute>,
    ) -> (r: Result<LoadStoreFunc, ExecutionError>)
        requires
            decodable(inst),
        ensures
            final(data).chip_idx == chip_idx as u32,
            match r {
                Ok(func) => {
                    &&& operands_valid(inst)
                    &&& chosen(inst, func)
                    &&& pre_computed(inst, final(data).data)
                },
                Err(e) => {
                    &&& !operands_valid(inst)
                    &&& e == ExecutionError::InvalidInstruction(pc)
                    &&& final(data).data == old(data).data
                },
            },
    {
        data.chip_idx = chip_idx as u32;
        match self.pre_compute_impl(pc, inst, &mut data.data) {
            Ok((opcode, enabled, is_native_store)) => Ok(
                LoadStoreFunc { opcode, enabled, is_native_store },
            ),
            Err(e) => Err(e),
        }
    }

    /// Returns the opcode, whether the instruction writes, and whether it stores to the native
    /// address space.
    fn pre_compute_impl<F: PrimeField32>(
        &self,
        pc: u32,
        inst: &Instruction<F>,
        data: &mut LoadStorePreCompute,
    ) -> (r: Result<(Rv32LoadStoreOpcode, bool, bool), ExecutionError>)
        requires
            decodable(inst),
        ensures
            match r {
                Ok((opcode, enabled, is_native_store)) => {
                    &&& operands_valid(inst)
                    &&& chosen(inst, (LoadStoreFunc { opcode, enabled, is_native_store }))
                    &&& pre_computed(inst, *final(data))
                },
                Err(e) => {
                    &&& !operands_valid(inst)
                    &&& e == ExecutionError::InvalidInstruction(pc)
                    &&& *final(data) == *old(data)
                },
            },
    {
        let enabled = !inst.f.is_zero();
        let e = inst.e.as_canonical_u32();
        if inst.d.as_canonical_u32() != RV32_REGISTER_AS || e == RV32_IMM_AS {
            return Err(ExecutionError::InvalidInstruction(pc));
        }
        let local_opcode = Rv32LoadStoreOpcode::from_usize(
            inst.opcode.local_opcode_idx(Rv32LoadStoreOpcode::CLASS_OFFSET),
        );
        match local_opcode {
            Rv32LoadStoreOpcode::LOADW
            | Rv32LoadStoreOpcode::LOADBU
            | Rv32LoadStoreOpcode::LOADHU => {},
            _ => {
                assert(local_opcode.is_store());
                if !enabled {
                    return Err(ExecutionError::InvalidInstruction(pc));
                }
            },
        }
        proof {
            inst.c.val_is_canonical();
            inst.g.val_is_canonical();
            let (x, y) = (inst.c.val(), inst.g.val());
            assert(0 <= y * 0xffff_0000 <= x + y * 0xffff_0000);
        }
        let imm = inst.c.as_canonical_u32();
        let imm_sign = inst.g.as_canonical_u32();
        let imm_extended = imm + imm_sign * 0xffff_0000;
        *data = LoadStorePreCompute {
            imm_extended,
            a: (inst.a.as_canonical_u32() % 256) as u8,
            b: (inst.b.as_canonical_u32() % 256) as u8,
            e: (e % 256) as u8,
        };
        Ok((local_opcode, enabled, e == NATIVE_AS))
    }
}

} // verus!
