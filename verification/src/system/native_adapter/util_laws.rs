//! What the accesses to the native address space do, cell by cell.
use crate::arch::execution_mode::{E1ExecutionCtx, MemoryOperation};
use crate::arch::segment::VmStateMut;
use crate::field::PrimeField32;
use crate::system::memory_laws::{
    has_cells, holds, lemma_block, lemma_written, same_elsewhere,
};
use crate::system::native_adapter::util::{
    memory_read_native, memory_read_native_from_state, memory_read_or_imm_native,
    memory_read_or_imm_native_from_state, memory_write_native, memory_write_native_from_state,
    timed_read_native, timed_write_native, tracing_read_native, tracing_read_or_imm_native,
    tracing_write_native, tracing_write_native_inplace, MemoryBaseAuxCols, MemoryWriteAuxCols,
};
use crate::system::online::{GuestMemory, TracingMemory};
use crate::system::online_laws::{is_latest, lemma_touched, marked};
use vstd::prelude::*;

verus! {

/// A native read tells what the cells of the native address space, which has index 4, hold.
pub proof fn law_native_read<F: PrimeField32, const N: usize>(
    memory: GuestMemory,
    ptr: u32,
    r: [F; N],
)
    requires
        has_cells(memory.memory, 4, ptr, N as int),
        call_ensures(memory_read_native::<F, N>, (&memory, ptr), r),
    ensures
        holds(memory.memory, 4, ptr, r@),
{
    lemma_block(memory.memory, 4, ptr, r@);
}

/// An operand in address space zero is itself; one in the native address space is what its cell
/// holds.
pub proof fn law_native_read_or_imm<F: PrimeField32>(
    memory: GuestMemory,
    addr_space: u32,
    ptr_or_imm: F,
    r: F,
)
    requires
        addr_space == 0 || addr_space == 4,
        addr_space == 4 ==> has_cells(memory.memory, 4, ptr_or_imm.val() as u32, 1),
        call_ensures(memory_read_or_imm_native::<F>, (&memory, addr_space, ptr_or_imm), r),
    ensures
        addr_space == 0 ==> r.val() == ptr_or_imm.val(),
        addr_space == 4 ==> r.val() == memory.memory.mem@[4]@[ptr_or_imm.val()],
{
    F::order_is_prime();
    ptr_or_imm.val_is_canonical();
}

/// A native write sets its cells and no others.
pub proof fn law_native_write<F: PrimeField32, const N: usize>(
    memory: &mut GuestMemory,
    ptr: u32,
    data: [F; N],
)
    requires
        has_cells(old(memory).memory, 4, ptr, N as int),
        call_ensures(memory_write_native::<F, N>, (memory, ptr, data), ()),
    ensures
        holds(final(memory).memory, 4, ptr, data@),
        same_elsewhere(old(memory).memory, final(memory).memory, 4, ptr, N as int),
{
    lemma_written(old(memory).memory, final(memory).memory, 4, ptr, data@);
}

/// What the context is told of an access to native cells.
pub open spec fn native_access(ptr: u32, n: usize, is_write: bool) -> MemoryOperation {
    MemoryOperation {
        address_space: 4,
        ptr,
        size: n as u32,
        is_load_store: false,
        is_write,
    }
}

/// A native read from a state tells what the cells hold, tells the context of the read, and changes
/// no memory.
pub proof fn law_native_read_from_state<'a, Ctx: E1ExecutionCtx, F: PrimeField32, const N: usize>(
    state: &mut VmStateMut<'a, F, GuestMemory, Ctx>,
    ptr: u32,
    r: [F; N],
)
    requires
        has_cells(old(state).memory.memory, 4, ptr, N as int),
        call_ensures(memory_read_native_from_state::<Ctx, F, N>, (state, ptr), r),
    ensures
        holds(old(state).memory.memory, 4, ptr, r@),
        final(state).ctx.ctx_view() == Ctx::after(
            old(state).ctx.ctx_view(),
            native_access(ptr, N, false),
        ),
        final(state).memory == old(state).memory,
        final(state).pc == old(state).pc,
        final(state).streams == old(state).streams,
        final(state).rng == old(state).rng,
{
    lemma_block(old(state).memory.memory, 4, ptr, r@);
}

/// An immediate is itself and is not told to the context; an operand in the native address space is
/// what its cell holds, and the context is told of the read.
pub proof fn law_native_read_or_imm_from_state<'a, Ctx: E1ExecutionCtx, F: PrimeField32>(
    state: &mut VmStateMut<'a, F, GuestMemory, Ctx>,
    addr_space: u32,
    ptr_or_imm: F,
    r: F,
)
    requires
        addr_space == 0 || addr_space == 4,
        addr_space == 4 ==> has_cells(old(state).memory.memory, 4, ptr_or_imm.val() as u32, 1),
        call_ensures(
            memory_read_or_imm_native_from_state::<Ctx, F>,
            (state, addr_space, ptr_or_imm),
            r,
        ),
    ensures
        addr_space == 0 ==> r.val() == ptr_or_imm.val() && final(state).ctx == old(state).ctx,
        addr_space == 4 ==> {
            &&& r.val() == old(state).memory.memory.mem@[4]@[ptr_or_imm.val()]
            &&& final(state).ctx.ctx_view() == Ctx::after(
                old(state).ctx.ctx_view(),
                native_access(ptr_or_imm.val() as u32, 1, false),
            )
        },
        final(state).memory == old(state).memory,
        final(state).pc == old(state).pc,
        final(state).streams == old(state).streams,
        final(state).rng == old(state).rng,
{
    F::order_is_prime();
    ptr_or_imm.val_is_canonical();
}

/// A native write to a state sets its cells and no others, and tells the context of the write.
pub proof fn law_native_write_from_state<'a, Ctx: E1ExecutionCtx, F: PrimeField32, const N: usize>(
    state: &mut VmStateMut<'a, F, GuestMemory, Ctx>,
    ptr: u32,
    data: [F; N],
)
    requires
        has_cells(old(state).memory.memory, 4, ptr, N as int),
        call_ensures(memory_write_native_from_state::<Ctx, F, N>, (state, ptr, data), ()),
    ensures
        holds(final(state).memory.memory, 4, ptr, data@),
        same_elsewhere(old(state).memory.memory, final(state).memory.memory, 4, ptr, N as int),
        final(state).ctx.ctx_view() == Ctx::after(
            old(state).ctx.ctx_view(),
            native_access(ptr, N, true),
        ),
        final(state).pc == old(state).pc,
        final(state).streams == old(state).streams,
        final(state).rng == old(state).rng,
{
    lemma_written(old(state).memory.memory, final(state).memory.memory, 4, ptr, data@);
}

/// The memory was read at the native cells from `ptr` on, and `time` is when one of them was last
/// accessed before.
pub open spec fn read_at<F: PrimeField32>(
    before: TracingMemory,
    after: TracingMemory,
    ptr: u32,
    values: Seq<F>,
    time: u32,
) -> bool {
    let n = values.len() as int;
    &&& is_latest(before.access_times, 4, ptr, n, time)
    &&& holds(before.data, 4, ptr, values)
    &&& after.data == before.data
    &&& marked(before.access_times, after.access_times, 4, ptr, n, before.timestamp)
    &&& after.timestamp == before.timestamp + 1
}

/// The memory was written at the native cells from `ptr` on, where `prev` stood before, and `time`
/// is when one of them was last accessed before.
pub open spec fn written_at<F: PrimeField32>(
    before: TracingMemory,
    after: TracingMemory,
    ptr: u32,
    values: Seq<F>,
    prev: Seq<F>,
    time: u32,
) -> bool {
    let n = values.len() as int;
    &&& is_latest(before.access_times, 4, ptr, n, time)
    &&& holds(before.data, 4, ptr, prev)
    &&& holds(after.data, 4, ptr, values)
    &&& same_elsewhere(before.data, after.data, 4, ptr, n)
    &&& marked(before.access_times, after.access_times, 4, ptr, n, before.timestamp)
    &&& after.timestamp == before.timestamp + 1
}

/// A read at the next timestamp returns the time of the access before and the values.
pub proof fn law_timed_read<F: PrimeField32, const N: usize>(
    memory: &mut TracingMemory,
    ptr: u32,
    r: (u32, [F; N]),
)
    requires
        old(memory).wf(),
        has_cells(old(memory).data, 4, ptr, N as int),
        call_ensures(timed_read_native::<F, N>, (memory, ptr), r),
    ensures
        read_at(*old(memory), *final(memory), ptr, r.1@, r.0),
{
    lemma_block(old(memory).data, 4, ptr, r.1@);
    lemma_touched(*old(memory), *final(memory), 4, ptr, N as int);
}

/// A write at the next timestamp returns the time of the access before and the values before.
pub proof fn law_timed_write<F: PrimeField32, const N: usize>(
    memory: &mut TracingMemory,
    ptr: u32,
    vals: [F; N],
    r: (u32, [F; N]),
)
    requires
        old(memory).wf(),
        has_cells(old(memory).data, 4, ptr, N as int),
        call_ensures(timed_write_native::<F, N>, (memory, ptr, vals), r),
    ensures
        written_at(*old(memory), *final(memory), ptr, vals@, r.1@, r.0),
{
    lemma_block(old(memory).data, 4, ptr, r.1@);
    lemma_written(old(memory).data, final(memory).data, 4, ptr, vals@);
    lemma_touched(*old(memory), *final(memory), 4, ptr, N as int);
}

/// A traced read records the time of the access before.
pub proof fn law_tracing_read<F: PrimeField32, const N: usize>(
    memory: &mut TracingMemory,
    ptr: u32,
    prev_timestamp: &mut u32,
    r: [F; N],
)
    requires
        old(memory).wf(),
        has_cells(old(memory).data, 4, ptr, N as int),
        call_ensures(tracing_read_native::<F, N>, (memory, ptr, prev_timestamp), r),
    ensures
        read_at(*old(memory), *final(memory), ptr, r@, *final(prev_timestamp)),
{
    lemma_block(old(memory).data, 4, ptr, r@);
    lemma_touched(*old(memory), *final(memory), 4, ptr, N as int);
}

/// A traced write records the time of the access before and the values before.
pub proof fn law_tracing_write<F: PrimeField32, const N: usize>(
    memory: &mut TracingMemory,
    ptr: u32,
    vals: [F; N],
    prev_timestamp: &mut u32,
    prev_data: &mut [F; N],
)
    requires
        old(memory).wf(),
        has_cells(old(memory).data, 4, ptr, N as int),
        call_ensures(
            tracing_write_native::<F, N>,
            (memory, ptr, vals, prev_timestamp, prev_data),
            (),
        ),
    ensures
        written_at(
            *old(memory),
            *final(memory),
            ptr,
            vals@,
            final(prev_data)@,
            *final(prev_timestamp),
        ),
{
    lemma_block(old(memory).data, 4, ptr, final(prev_data)@);
    lemma_written(old(memory).data, final(memory).data, 4, ptr, vals@);
    lemma_touched(*old(memory), *final(memory), 4, ptr, N as int);
}

/// A traced write into columns records there the time of the access before and the values before.
pub proof fn law_tracing_write_inplace<F: PrimeField32, const N: usize>(
    memory: &mut TracingMemory,
    ptr: u32,
    vals: [F; N],
    cols: &mut MemoryWriteAuxCols<F, N>,
)
    requires
        old(memory).wf(),
        has_cells(old(memory).data, 4, ptr, N as int),
        call_ensures(tracing_write_native_inplace::<F, N>, (memory, ptr, vals, cols), ()),
    ensures
        written_at(
            *old(memory),
            *final(memory),
            ptr,
            vals@,
            final(cols).prev_data@,
            final(cols).base.prev_timestamp.val() as u32,
        ),
        final(cols).base.prev_timestamp.val() <= u32::MAX,
{
    lemma_block(old(memory).data, 4, ptr, final(cols).prev_data@);
    lemma_written(old(memory).data, final(memory).data, 4, ptr, vals@);
    lemma_touched(*old(memory), *final(memory), 4, ptr, N as int);
}

/// A traced read of an operand in the native address space is a traced read of its cell. An
/// immediate is itself: no cell is accessed, the time passes, and the recorded time is the greatest
/// there is.
pub proof fn law_tracing_read_or_imm<F: PrimeField32>(
    memory: &mut TracingMemory,
    addr_space: u32,
    ptr_or_imm: F,
    prev_timestamp: &mut u32,
    r: F,
)
    requires
        addr_space == 0 || addr_space == 4,
        old(memory).wf(),
        addr_space == 4 ==> has_cells(old(memory).data, 4, ptr_or_imm.val() as u32, 1),
        call_ensures(
            tracing_read_or_imm_native::<F>,
            (memory, addr_space, ptr_or_imm, prev_timestamp),
            r,
        ),
    ensures
        addr_space == 0 ==> {
            &&& r.val() == ptr_or_imm.val()
            &&& *final(prev_timestamp) == 0xffff_ffff
            &&& final(memory).data == old(memory).data
            &&& final(memory).times() == old(memory).times()
            &&& final(memory).timestamp == old(memory).timestamp + 1
        },
        addr_space == 4 ==> read_at(
            *old(memory),
            *final(memory),
            ptr_or_imm.val() as u32,
            seq![r],
            *final(prev_timestamp),
        ),
{
    F::order_is_prime();
    ptr_or_imm.val_is_canonical();
    r.val_is_canonical();
    if addr_space == 4 {
        lemma_touched(*old(memory), *final(memory), 4, ptr_or_imm.val() as u32, 1);
        let ptr = ptr_or_imm.val() as u32;
        assert(holds(old(memory).data, 4, ptr, seq![r])) by {
            assert(old(memory).data@[4][ptr as int] == old(memory).data.mem@[4]@[ptr as int]);
            crate::system::native_adapter::util::lemma_cell_is_value(r);
        }
    }
}

/// The recorded time is the one that was set.
pub proof fn law_set_prev<T>(cols: &mut MemoryBaseAuxCols<T>, timestamp: T)
    requires
        call_ensures(MemoryBaseAuxCols::<T>::set_prev, (cols, timestamp), ()),
    ensures
        final(cols).prev_timestamp == timestamp,
{
}

} // verus!
