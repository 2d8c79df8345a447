//! What accesses to memory do to the state of a segment.
use crate::arch::error::ExecutionError;
use crate::arch::execution_mode::{E1ExecutionCtx, MemoryOperation};
use crate::arch::segment::VmSegmentState;
use crate::arch::vm::streams::Streams;
use crate::system::memory::{cells_of, MemoryCell};
use crate::system::memory_laws::{
    has_cells, holds, lemma_block, lemma_written, same_elsewhere,
};
use crate::system::online::GuestMemory;
use rand::rngs::StdRng;
use vstd::prelude::*;

verus! {

/// Two states have the same program counter, counts, streams, generator and exit code.
pub open spec fn same_besides_memory<F, Ctx>(
    before: VmSegmentState<F, Ctx>,
    after: VmSegmentState<F, Ctx>,
) -> bool {
    &&& after.instret == before.instret
    &&& after.pc == before.pc
    &&& after.streams == before.streams
    &&& after.rng == before.rng
    &&& after.exit_code == before.exit_code
    &&& after.imm_cnt == before.imm_cnt
}

/// The context was told of one access.
pub open spec fn told<F, Ctx: E1ExecutionCtx>(
    before: VmSegmentState<F, Ctx>,
    after: VmSegmentState<F, Ctx>,
    address_space: u32,
    ptr: u32,
    size: u32,
    is_load_store: bool,
    is_write: bool,
) -> bool {
    after.ctx.ctx_view() == Ctx::after(
        before.ctx.ctx_view(),
        MemoryOperation { address_space, ptr, size, is_load_store, is_write },
    )
}

/// The state of a segment begins with what it is given: nothing has ended it and no immediate was
/// counted. Without a memory it has no address space.
pub proof fn law_segment_state_new<F, Ctx>(
    instret: u64,
    pc: u32,
    memory: Option<GuestMemory>,
    streams: Streams<F>,
    rng: StdRng,
    ctx: Ctx,
    r: VmSegmentState<F, Ctx>,
)
    requires
        call_ensures(
            VmSegmentState::<F, Ctx>::new,
            (instret, pc, memory, streams, rng, ctx),
            r,
        ),
    ensures
        r.instret == instret,
        r.pc == pc,
        memory matches Some(m) ==> r.memory@ == m@,
        memory is None ==> r.memory@.len() == 0,
        r.streams == streams,
        r.rng == rng,
        r.ctx == ctx,
        r.exit_code == Ok::<Option<u32>, ExecutionError>(None),
        r.imm_cnt == 0,
{
}

/// A read tells what the cells hold, tells the context of the read, and changes nothing else.
pub proof fn law_vm_read<F, Ctx: E1ExecutionCtx, T: MemoryCell, const N: usize>(
    state: &mut VmSegmentState<F, Ctx>,
    addr_space: u32,
    ptr: u32,
    r: [T; N],
)
    requires
        has_cells(old(state).memory.memory, addr_space, ptr, N as int),
        call_ensures(
            VmSegmentState::<F, Ctx>::vm_read::<T, N>,
            (state, addr_space, ptr),
            r,
        ),
    ensures
        holds(old(state).memory.memory, addr_space, ptr, r@),
        final(state).memory == old(state).memory,
        told(*old(state), *final(state), addr_space, ptr, N as u32, false, false),
        same_besides_memory(*old(state), *final(state)),
{
    lemma_block(old(state).memory.memory, addr_space, ptr, r@);
}

/// A read for a load or store does the same; the context is told that it is for one.
pub proof fn law_vm_read_from_loadstore<F, Ctx: E1ExecutionCtx, T: MemoryCell, const N: usize>(
    state: &mut VmSegmentState<F, Ctx>,
    addr_space: u32,
    ptr: u32,
    r: [T; N],
)
    requires
        has_cells(old(state).memory.memory, addr_space, ptr, N as int),
        call_ensures(
            VmSegmentState::<F, Ctx>::vm_read_from_loadstore::<T, N>,
            (state, addr_space, ptr),
            r,
        ),
    ensures
        holds(old(state).memory.memory, addr_space, ptr, r@),
        final(state).memory == old(state).memory,
        told(*old(state), *final(state), addr_space, ptr, N as u32, true, false),
        same_besides_memory(*old(state), *final(state)),
{
    lemma_block(old(state).memory.memory, addr_space, ptr, r@);
}

/// A write sets the cells and no others, tells the context of the write, and changes nothing else.
pub proof fn law_vm_write<F, Ctx: E1ExecutionCtx, T: MemoryCell, const N: usize>(
    state: &mut VmSegmentState<F, Ctx>,
    addr_space: u32,
    ptr: u32,
    data: [T; N],
)
    requires
        has_cells(old(state).memory.memory, addr_space, ptr, N as int),
        call_ensures(
            VmSegmentState::<F, Ctx>::vm_write::<T, N>,
            (state, addr_space, ptr, &data),
            (),
        ),
    ensures
        holds(final(state).memory.memory, addr_space, ptr, data@),
        same_elsewhere(
            old(state).memory.memory,
            final(state).memory.memory,
            addr_space,
            ptr,
            N as int,
        ),
        told(*old(state), *final(state), addr_space, ptr, N as u32, false, true),
        same_besides_memory(*old(state), *final(state)),
{
    lemma_written(
        old(state).memory.memory,
        final(state).memory.memory,
        addr_space,
        ptr,
        data@,
    );
}

/// A write for a load or store does the same; the context is told that it is for one.
pub proof fn law_vm_write_from_loadstore<F, Ctx: E1ExecutionCtx, T: MemoryCell, const N: usize>(
    state: &mut VmSegmentState<F, Ctx>,
    addr_space: u32,
    ptr: u32,
    data: [T; N],
)
    requires
        has_cells(old(state).memory.memory, addr_space, ptr, N as int),
        call_ensures(
            VmSegmentState::<F, Ctx>::vm_write_from_loadstore::<T, N>,
            (state, addr_space, ptr, &data),
            (),
        ),
    ensures
        holds(final(state).memory.memory, addr_space, ptr, data@),
        same_elsewhere(
            old(state).memory.memory,
            final(state).memory.memory,
            addr_space,
            ptr,
            N as int,
        ),
        told(*old(state), *final(state), addr_space, ptr, N as u32, true, true),
        same_besides_memory(*old(state), *final(state)),
{
    lemma_written(
        old(state).memory.memory,
        final(state).memory.memory,
        addr_space,
        ptr,
        data@,
    );
}

/// A read of a slice tells what the cells hold, tells the context of the read, and changes nothing
/// else.
pub proof fn law_vm_read_slice<F, Ctx: E1ExecutionCtx, T: MemoryCell>(
    state: &mut VmSegmentState<F, Ctx>,
    addr_space: u32,
    ptr: u32,
    len: usize,
    r: Vec<T>,
)
    requires
        has_cells(old(state).memory.memory, addr_space, ptr, len as int),
        call_ensures(
            VmSegmentState::<F, Ctx>::vm_read_slice::<T>,
            (state, addr_space, ptr, len),
            r,
        ),
    ensures
        r@.len() == len,
        holds(old(state).memory.memory, addr_space, ptr, r@),
        final(state).memory == old(state).memory,
        told(*old(state), *final(state), addr_space, ptr, len as u32, false, false),
        same_besides_memory(*old(state), *final(state)),
{
    assert(cells_of(r@).len() == len);
    lemma_block(old(state).memory.memory, addr_space, ptr, r@);
}

/// A read that the context is not told of tells what the cells hold.
pub proof fn law_host_read<F, Ctx: E1ExecutionCtx, T: MemoryCell, const N: usize>(
    state: VmSegmentState<F, Ctx>,
    addr_space: u32,
    ptr: u32,
    r: [T; N],
)
    requires
        has_cells(state.memory.memory, addr_space, ptr, N as int),
        call_ensures(
            VmSegmentState::<F, Ctx>::host_read::<T, N>,
            (&state, addr_space, ptr),
            r,
        ),
    ensures
        holds(state.memory.memory, addr_space, ptr, r@),
{
    lemma_block(state.memory.memory, addr_space, ptr, r@);
}

/// A read of a slice that the context is not told of tells what the cells hold.
pub proof fn law_host_read_slice<F, Ctx: E1ExecutionCtx, T: MemoryCell>(
    state: VmSegmentState<F, Ctx>,
    addr_space: u32,
    ptr: u32,
    len: usize,
    r: Vec<T>,
)
    requires
        has_cells(state.memory.memory, addr_space, ptr, len as int),
        call_ensures(
            VmSegmentState::<F, Ctx>::host_read_slice::<T>,
            (&state, addr_space, ptr, len),
            r,
        ),
    ensures
        r@.len() == len,
        holds(state.memory.memory, addr_space, ptr, r@),
{
    assert(cells_of(r@).len() == len);
    lemma_block(state.memory.memory, addr_space, ptr, r@);
}

/// A write that the context is not told of sets the cells and no others, and changes nothing else.
pub proof fn law_host_write<F, Ctx: E1ExecutionCtx, T: MemoryCell, const N: usize>(
    state: &mut VmSegmentState<F, Ctx>,
    addr_space: u32,
    ptr: u32,
    data: [T; N],
)
    requires
        has_cells(old(state).memory.memory, addr_space, ptr, N as int),
        call_ensures(
            VmSegmentState::<F, Ctx>::host_write::<T, N>,
            (state, addr_space, ptr, &data),
            (),
        ),
    ensures
        holds(final(state).memory.memory, addr_space, ptr, data@),
        same_elsewhere(
            old(state).memory.memory,
            final(state).memory.memory,
            addr_space,
            ptr,
            N as int,
        ),
        final(state).ctx == old(state).ctx,
        same_besides_memory(*old(state), *final(state)),
{
    lemma_written(
        old(state).memory.memory,
        final(state).memory.memory,
        addr_space,
        ptr,
        data@,
    );
}

} // verus!
