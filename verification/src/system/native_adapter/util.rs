//! Reads and writes of native cells, with and without timestamps.
use crate::arch::execution_mode::E1ExecutionCtx;
use crate::arch::segment::{access, VmStateMut};
use crate::field::PrimeField32;
use crate::instructions::{NATIVE_AS, RV32_IMM_AS};
use crate::system::memory::{block, block_holds, block_in, cells_of, written, MemoryCell};
use crate::system::online::{law_last_access_past, GuestMemory, TracingMemory};
use vstd::prelude::*;

verus! {

/// The columns that every memory access has besides its data.
pub struct MemoryBaseAuxCols<T> {
    /// The time of the access before.
    pub prev_timestamp: T,
}

impl<T> MemoryBaseAuxCols<T> {
    pub fn set_prev(&mut self, timestamp: T)
        ensures
            final(self).prev_timestamp == timestamp,
    {
        self.prev_timestamp = timestamp;
    }
}

/// The columns of a write besides its data.
pub struct MemoryWriteAuxCols<T, const N: usize> {
    pub base: MemoryBaseAuxCols<T>,
    pub prev_data: [T; N],
}

/// The canonical value of an element is its cell.
pub broadcast proof fn lemma_cell_is_value<F: PrimeField32>(x: F)
    ensures
        #[trigger] x.cell() == x.val(),
{
    F::order_is_prime();
    x.val_is_canonical();
}

pub fn memory_read_native<F: PrimeField32, const N: usize>(memory: &GuestMemory, ptr: u32) -> (r: [F;
    N])
    requires
        block_holds::<F>(memory@, NATIVE_AS, ptr, N as int),
    ensures
        cells_of(r@) == block(memory@, NATIVE_AS, ptr, N as int),
{
    memory.read::<F, N>(NATIVE_AS, ptr)
}

/// The cell at `ptr_or_imm` of the native address space, or the immediate itself.
pub fn memory_read_or_imm_native<F: PrimeField32>(
    memory: &GuestMemory,
    addr_space: u32,
    ptr_or_imm: F,
) -> (r: F)
    requires
        addr_space == RV32_IMM_AS || addr_space == NATIVE_AS,
        addr_space == NATIVE_AS ==> block_holds::<F>(
            memory@,
            NATIVE_AS,
            ptr_or_imm.val() as u32,
            1,
        ),
    ensures
        addr_space == NATIVE_AS ==> r.val() == memory@[NATIVE_AS as int][ptr_or_imm.val()],
        addr_space == RV32_IMM_AS ==> r == ptr_or_imm,
{
    broadcast use lemma_cell_is_value;

    if addr_space == NATIVE_AS {
        let ptr = ptr_or_imm.as_canonical_u32();
        let result: [F; 1] = memory_read_native(memory, ptr);
        assert(result[0].cell() == cells_of(result@)[0]);
        result[0]
    } else {
        ptr_or_imm
    }
}

pub fn memory_write_native<F: PrimeField32, const N: usize>(
    memory: &mut GuestMemory,
    ptr: u32,
    data: [F; N],
)
    requires
        block_in(old(memory)@, NATIVE_AS, ptr, N as int),
    ensures
        final(memory)@ == written(old(memory)@, NATIVE_AS, ptr, cells_of(data@)),
{
    memory.write::<F, N>(NATIVE_AS, ptr, data);
}

/// Reads native cells and tells the context.
pub fn memory_read_native_from_state<'a, Ctx: E1ExecutionCtx, F: PrimeField32, const N: usize>(
    state: &mut VmStateMut<'a, F, GuestMemory, Ctx>,
    ptr: u32,
) -> (r: [F; N])
    requires
        block_holds::<F>(old(state).memory@, NATIVE_AS, ptr, N as int),
        Ctx::accepts(
            old(state).ctx.ctx_view(),
            access(NATIVE_AS, ptr, N as int, false, false),
        ),
    ensures
        cells_of(r@) == block(old(state).memory@, NATIVE_AS, ptr, N as int),
        final(state).ctx.ctx_view() == Ctx::after(
            old(state).ctx.ctx_view(),
            access(NATIVE_AS, ptr, N as int, false, false),
        ),
        *final(final(state).ctx) == *final(old(state).ctx),
        final(state).memory == old(state).memory,
        final(state).pc == old(state).pc,
        final(state).streams == old(state).streams,
        final(state).rng == old(state).rng,
{
    state.ctx.on_memory_operation(NATIVE_AS, ptr, N as u32, false, false);
    memory_read_native(state.memory, ptr)
}

/// Reads a native cell and tells the context, or returns the immediate.
pub fn memory_read_or_imm_native_from_state<'a, Ctx: E1ExecutionCtx, F: PrimeField32>(
    state: &mut VmStateMut<'a, F, GuestMemory, Ctx>,
    addr_space: u32,
    ptr_or_imm: F,
) -> (r: F)
    requires
        addr_space == RV32_IMM_AS || addr_space == NATIVE_AS,
        addr_space == NATIVE_AS ==> ({
            let ptr = ptr_or_imm.val() as u32;
            &&& block_holds::<F>(old(state).memory@, NATIVE_AS, ptr, 1)
            &&& Ctx::accepts(old(state).ctx.ctx_view(), access(NATIVE_AS, ptr, 1, false, false))
        }),
    ensures
        addr_space == NATIVE_AS ==> ({
            &&& r.val() == old(state).memory@[NATIVE_AS as int][ptr_or_imm.val()]
            &&& final(state).ctx.ctx_view() == Ctx::after(
                old(state).ctx.ctx_view(),
                access(NATIVE_AS, ptr_or_imm.val() as u32, 1, false, false),
            )
        }),
        addr_space == RV32_IMM_AS ==> r == ptr_or_imm && final(state).ctx == old(state).ctx,
        *final(final(state).ctx) == *final(old(state).ctx),
        final(state).memory == old(state).memory,
        final(state).pc == old(state).pc,
        final(state).streams == old(state).streams,
        final(state).rng == old(state).rng,
{
    broadcast use lemma_cell_is_value;

    if addr_space == NATIVE_AS {
        let ptr = ptr_or_imm.as_canonical_u32();
        let result: [F; 1] = memory_read_native_from_state(state, ptr);
        assert(result[0].cell() == cells_of(result@)[0]);
        result[0]
    } else {
        ptr_or_imm
    }
}

/// Writes native cells and tells the context.
pub fn memory_write_native_from_state<'a, Ctx: E1ExecutionCtx, F: PrimeField32, const N: usize>(
    state: &mut VmStateMut<'a, F, GuestMemory, Ctx>,
    ptr: u32,
    data: [F; N],
)
    requires
        block_in(old(state).memory@, NATIVE_AS, ptr, N as int),
        Ctx::accepts(
            old(state).ctx.ctx_view(),
            access(NATIVE_AS, ptr, N as int, false, true),
        ),
    ensures
        final(state).memory@ == written(old(state).memory@, NATIVE_AS, ptr, cells_of(data@)),
        *final(final(state).memory) == *final(old(state).memory),
        final(state).ctx.ctx_view() == Ctx::after(
            old(state).ctx.ctx_view(),
            access(NATIVE_AS, ptr, N as int, false, true),
        ),
        *final(final(state).ctx) == *final(old(state).ctx),
        final(state).pc == old(state).pc,
        final(state).streams == old(state).streams,
        final(state).rng == old(state).rng,
{
    state.ctx.on_memory_operation(NATIVE_AS, ptr, N as u32, false, true);
    memory_write_native(state.memory, ptr, data);
}

/// Reads native cells at the next timestamp. Returns the time of the last access to any of them,
/// and their values.
pub fn timed_read_native<F: PrimeField32, const BLOCK_SIZE: usize>(
    memory: &mut TracingMemory,
    ptr: u32,
) -> (r: (u32, [F; BLOCK_SIZE]))
    requires
        old(memory).wf(),
        block_holds::<F>(old(memory).data@, NATIVE_AS, ptr, BLOCK_SIZE as int),
        old(memory).timestamp < u32::MAX,
    ensures
        final(memory).wf(),
        final(memory).timestamp == old(memory).timestamp + 1,
        final(memory).data == old(memory).data,
        final(memory).times() == old(memory).touched(NATIVE_AS, ptr, BLOCK_SIZE as int),
        r.0 == old(memory).last_access(NATIVE_AS, ptr, BLOCK_SIZE as int),
        cells_of(r.1@) == block(old(memory).data@, NATIVE_AS, ptr, BLOCK_SIZE as int),
{
    memory.read::<F, BLOCK_SIZE>(NATIVE_AS, ptr)
}

/// Writes native cells at the next timestamp. Returns the time of the last access to any of them,
/// and the values that they held.
pub fn timed_write_native<F: PrimeField32, const BLOCK_SIZE: usize>(
    memory: &mut TracingMemory,
    ptr: u32,
    vals: [F; BLOCK_SIZE],
) -> (r: (u32, [F; BLOCK_SIZE]))
    requires
        old(memory).wf(),
        block_holds::<F>(old(memory).data@, NATIVE_AS, ptr, BLOCK_SIZE as int),
        old(memory).timestamp < u32::MAX,
    ensures
        final(memory).wf(),
        final(memory).timestamp == old(memory).timestamp + 1,
        final(memory).data@ == written(old(memory).data@, NATIVE_AS, ptr, cells_of(vals@)),
        final(memory).times() == old(memory).touched(NATIVE_AS, ptr, BLOCK_SIZE as int),
        r.0 == old(memory).last_access(NATIVE_AS, ptr, BLOCK_SIZE as int),
        cells_of(r.1@) == block(old(memory).data@, NATIVE_AS, ptr, BLOCK_SIZE as int),
{
    memory.write::<F, BLOCK_SIZE>(NATIVE_AS, ptr, vals)
}

/// Reads native cells and records the time of the access before.
pub fn tracing_read_native<F: PrimeField32, const BLOCK_SIZE: usize>(
    memory: &mut TracingMemory,
    ptr: u32,
    prev_timestamp: &mut u32,
) -> (r: [F; BLOCK_SIZE])
    requires
        old(memory).wf(),
        block_holds::<F>(old(memory).data@, NATIVE_AS, ptr, BLOCK_SIZE as int),
        old(memory).timestamp < u32::MAX,
    ensures
        final(memory).wf(),
        final(memory).timestamp == old(memory).timestamp + 1,
        final(memory).data == old(memory).data,
        final(memory).times() == old(memory).touched(NATIVE_AS, ptr, BLOCK_SIZE as int),
        *final(prev_timestamp) == old(memory).last_access(NATIVE_AS, ptr, BLOCK_SIZE as int),
        cells_of(r@) == block(old(memory).data@, NATIVE_AS, ptr, BLOCK_SIZE as int),
{
    let (t_prev, data) = timed_read_native(memory, ptr);
    *prev_timestamp = t_prev;
    data
}

/// Writes native cells and records the time and the data of the access before.
pub fn tracing_write_native<F: PrimeField32, const BLOCK_SIZE: usize>(
    memory: &mut TracingMemory,
    ptr: u32,
    vals: [F; BLOCK_SIZE],
    prev_timestamp: &mut u32,
    prev_data: &mut [F; BLOCK_SIZE],
)
    requires
        old(memory).wf(),
        block_holds::<F>(old(memory).data@, NATIVE_AS, ptr, BLOCK_SIZE as int),
        old(memory).timestamp < u32::MAX,
    ensures
        final(memory).wf(),
        final(memory).timestamp == old(memory).timestamp + 1,
        final(memory).data@ == written(old(memory).data@, NATIVE_AS, ptr, cells_of(vals@)),
        final(memory).times() == old(memory).touched(NATIVE_AS, ptr, BLOCK_SIZE as int),
        *final(prev_timestamp) == old(memory).last_access(NATIVE_AS, ptr, BLOCK_SIZE as int),
        cells_of(final(prev_data)@) == block(
            old(memory).data@,
            NATIVE_AS,
            ptr,
            BLOCK_SIZE as int,
        ),
{
    let (t_prev, data_prev) = timed_write_native(memory, ptr, vals);
    *prev_timestamp = t_prev;
    *prev_data = data_prev;
}

/// Writes native cells and records the time and the data of the access before in columns.
pub fn tracing_write_native_inplace<F: PrimeField32, const BLOCK_SIZE: usize>(
    memory: &mut TracingMemory,
    ptr: u32,
    vals: [F; BLOCK_SIZE],
    cols: &mut MemoryWriteAuxCols<F, BLOCK_SIZE>,
)
    requires
        old(memory).wf(),
        block_holds::<F>(old(memory).data@, NATIVE_AS, ptr, BLOCK_SIZE as int),
        0 < old(memory).timestamp < u32::MAX,
        old(memory).timestamp <= F::order(),
    ensures
        final(memory).wf(),
        final(memory).timestamp == old(memory).timestamp + 1,
        final(memory).data@ == written(old(memory).data@, NATIVE_AS, ptr, cells_of(vals@)),
        final(memory).times() == old(memory).touched(NATIVE_AS, ptr, BLOCK_SIZE as int),
        final(cols).base.prev_timestamp.val() == old(memory).last_access(
            NATIVE_AS,
            ptr,
            BLOCK_SIZE as int,
        ),
        cells_of(final(cols).prev_data@) == block(
            old(memory).data@,
            NATIVE_AS,
            ptr,
            BLOCK_SIZE as int,
        ),
{
    proof {
        law_last_access_past(*memory, NATIVE_AS, ptr, BLOCK_SIZE as int);
    }
    let (t_prev, data_prev) = timed_write_native(memory, ptr, vals);
    cols.base.set_prev(F::from_canonical_u32(t_prev));
    cols.prev_data = data_prev;
}

/// Reads the cell at `ptr_or_imm` and records the time of the access before. If the operand is an
/// immediate, one timestamp passes, and the recorded time is `u32::MAX`.
pub fn tracing_read_or_imm_native<F: PrimeField32>(
    memory: &mut TracingMemory,
    addr_space: u32,
    ptr_or_imm: F,
    prev_timestamp: &mut u32,
) -> (r: F)
    requires
        addr_space == RV32_IMM_AS || addr_space == NATIVE_AS,
        old(memory).wf(),
        addr_space == NATIVE_AS ==> block_holds::<F>(
            old(memory).data@,
            NATIVE_AS,
            ptr_or_imm.val() as u32,
            1,
        ),
        old(memory).timestamp < u32::MAX,
    ensures
        final(memory).wf(),
        final(memory).timestamp == old(memory).timestamp + 1,
        final(memory).data == old(memory).data,
        addr_space == RV32_IMM_AS ==> ({
            &&& r == ptr_or_imm
            &&& *final(prev_timestamp) == u32::MAX
            &&& final(memory).times() == old(memory).times()
        }),
        addr_space == NATIVE_AS ==> ({
            let ptr = ptr_or_imm.val() as u32;
            &&& r.val() == old(memory).data@[NATIVE_AS as int][ptr as int]
            &&& *final(prev_timestamp) == old(memory).last_access(NATIVE_AS, ptr, 1)
            &&& final(memory).times() == old(memory).touched(NATIVE_AS, ptr, 1)
        }),
{
    broadcast use lemma_cell_is_value;

    if addr_space == RV32_IMM_AS {
        *prev_timestamp = u32::MAX;
        memory.increment_timestamp();
        ptr_or_imm
    } else {
        let ptr = ptr_or_imm.as_canonical_u32();
        let data: [F; 1] = tracing_read_native(memory, ptr, prev_timestamp);
        assert(data[0].cell() == cells_of(data@)[0]);
        data[0]
    }
}

} // verus!
