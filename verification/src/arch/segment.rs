//! The state of a segment and its execution.
use crate::arch::error::ExecutionError;
use crate::arch::execution_mode::{E1ExecutionCtx, MemoryOperation};
use crate::arch::vm::streams::Streams;
use crate::system::memory::{block, block_holds, block_in, cells_of, written, MemoryCell};
use crate::system::online::GuestMemory;
use rand::rngs::StdRng;
use vstd::prelude::*;

verus! {

/// The state of a segment while it executes.
pub struct VmSegmentState<F, Ctx> {
    /// The number of instructions that retired.
    pub instret: u64,
    pub pc: u32,
    pub memory: GuestMemory,
    pub streams: Streams<F>,
    pub rng: StdRng,
    /// How the program ended, if it did.
    pub exit_code: Result<Option<u32>, ExecutionError>,
    pub ctx: Ctx,
    /// The number of operands that were immediates.
    pub imm_cnt: u64,
}

/// The parts of a state that an instruction may change.
pub struct VmStateMut<'a, F, MEM, CTX> {
    pub pc: &'a mut u32,
    pub memory: &'a mut MEM,
    pub streams: &'a mut Streams<F>,
    pub rng: &'a mut StdRng,
    pub ctx: &'a mut CTX,
}

/// An access of `n` cells.
pub open spec fn access(
    address_space: u32,
    ptr: u32,
    n: int,
    is_load_store: bool,
    is_write: bool,
) -> MemoryOperation {
    MemoryOperation { address_space, ptr, size: n as u32, is_load_store, is_write }
}

impl<F, Ctx> VmSegmentState<F, Ctx> {
    /// The states differ at most in memory and context.
    pub open spec fn same_registers(&self, other: &Self) -> bool {
        &&& self.instret == other.instret
        &&& self.pc == other.pc
        &&& self.same_io(other)
        &&& self.exit_code == other.exit_code
        &&& self.imm_cnt == other.imm_cnt
    }

    /// The states have the same streams and generator.
    pub open spec fn same_io(&self, other: &Self) -> bool {
        self.streams == other.streams && self.rng == other.rng
    }

    pub fn new(
        instret: u64,
        pc: u32,
        memory: Option<GuestMemory>,
        streams: Streams<F>,
        rng: StdRng,
        ctx: Ctx,
    ) -> (r: Self)
        ensures
            r.instret == instret,
            r.pc == pc,
            r.memory@ == (match memory {
                Some(m) => m@,
                None => Seq::empty(),
            }),
            r.streams == streams,
            r.rng == rng,
            r.ctx == ctx,
            r.exit_code == Ok::<Option<u32>, ExecutionError>(None),
            r.imm_cnt == 0,
    {
        let memory = match memory {
            Some(m) => m,
            None => GuestMemory::empty(),
        };
        VmSegmentState {
            instret,
            pc,
            memory,
            streams,
            rng,
            exit_code: Ok(None),
            ctx,
            imm_cnt: 0,
        }
    }
}

impl<F, Ctx: E1ExecutionCtx> VmSegmentState<F, Ctx> {
    /// Reads a block of memory.
    pub fn vm_read<T: MemoryCell, const BLOCK_SIZE: usize>(&mut self, addr_space: u32, ptr: u32) -> (r:
        [T; BLOCK_SIZE])
        requires
            block_holds::<T>(old(self).memory@, addr_space, ptr, BLOCK_SIZE as int),
            Ctx::accepts(
                old(self).ctx.ctx_view(),
                access(addr_space, ptr, BLOCK_SIZE as int, false, false),
            ),
        ensures
            final(self).same_registers(old(self)),
            final(self).memory == old(self).memory,
            final(self).ctx.ctx_view() == Ctx::after(
                old(self).ctx.ctx_view(),
                access(addr_space, ptr, BLOCK_SIZE as int, false, false),
            ),
            cells_of(r@) == block(old(self).memory@, addr_space, ptr, BLOCK_SIZE as int),
    {
        self.ctx.on_memory_operation(addr_space, ptr, BLOCK_SIZE as u32, false, false);
        self.host_read(addr_space, ptr)
    }

    /// Reads a block of memory for a load or store.
    pub fn vm_read_from_loadstore<T: MemoryCell, const BLOCK_SIZE: usize>(
        &mut self,
        addr_space: u32,
        ptr: u32,
    ) -> (r: [T; BLOCK_SIZE])
        requires
            block_holds::<T>(old(self).memory@, addr_space, ptr, BLOCK_SIZE as int),
            Ctx::accepts(
                old(self).ctx.ctx_view(),
                access(addr_space, ptr, BLOCK_SIZE as int, true, false),
            ),
        ensures
            final(self).same_registers(old(self)),
            final(self).memory == old(self).memory,
            final(self).ctx.ctx_view() == Ctx::after(
                old(self).ctx.ctx_view(),
                access(addr_space, ptr, BLOCK_SIZE as int, true, false),
            ),
            cells_of(r@) == block(old(self).memory@, addr_space, ptr, BLOCK_SIZE as int),
    {
        self.ctx.on_memory_operation(addr_space, ptr, BLOCK_SIZE as u32, true, false);
        self.host_read(addr_space, ptr)
    }

    /// Writes a block of memory.
    pub fn vm_write<T: MemoryCell, const BLOCK_SIZE: usize>(
        &mut self,
        addr_space: u32,
        ptr: u32,
        data: &[T; BLOCK_SIZE],
    )
        requires
            block_in(old(self).memory@, addr_space, ptr, BLOCK_SIZE as int),
            T::suits(addr_space),
            Ctx::accepts(
                old(self).ctx.ctx_view(),
                access(addr_space, ptr, BLOCK_SIZE as int, false, true),
            ),
        ensures
            final(self).same_registers(old(self)),
            final(self).memory@ == written(old(self).memory@, addr_space, ptr, cells_of(data@)),
            final(self).ctx.ctx_view() == Ctx::after(
                old(self).ctx.ctx_view(),
                access(addr_space, ptr, BLOCK_SIZE as int, false, true),
            ),
    {
        self.ctx.on_memory_operation(addr_space, ptr, BLOCK_SIZE as u32, false, true);
        self.host_write(addr_space, ptr, data);
    }

    /// Writes a block of memory for a load or store.
    pub fn vm_write_from_loadstore<T: MemoryCell, const BLOCK_SIZE: usize>(
        &mut self,
        addr_space: u32,
        ptr: u32,
        data: &[T; BLOCK_SIZE],
    )
        requires
            block_in(old(self).memory@, addr_space, ptr, BLOCK_SIZE as int),
            T::suits(addr_space),
            Ctx::accepts(
                old(self).ctx.ctx_view(),
                access(addr_space, ptr, BLOCK_SIZE as int, true, true),
            ),
        ensures
            final(self).same_registers(old(self)),
            final(self).memory@ == written(old(self).memory@, addr_space, ptr, cells_of(data@)),
            final(self).ctx.ctx_view() == Ctx::after(
                old(self).ctx.ctx_view(),
                access(addr_space, ptr, BLOCK_SIZE as int, true, true),
            ),
    {
        self.ctx.on_memory_operation(addr_space, ptr, BLOCK_SIZE as u32, true, true);
        self.host_write(addr_space, ptr, data);
    }

    /// Reads `len` cells.
    pub fn vm_read_slice<T: MemoryCell>(&mut self, addr_space: u32, ptr: u32, len: usize) -> (r: Vec<
        T,
    >)
        requires
            block_holds::<T>(old(self).memory@, addr_space, ptr, len as int),
            Ctx::accepts(
                old(self).ctx.ctx_view(),
                access(addr_space, ptr, len as int, false, false),
            ),
        ensures
            final(self).same_registers(old(self)),
            final(self).memory == old(self).memory,
            final(self).ctx.ctx_view() == Ctx::after(
                old(self).ctx.ctx_view(),
                access(addr_space, ptr, len as int, false, false),
            ),
            cells_of(r@) == block(old(self).memory@, addr_space, ptr, len as int),
    {
        self.ctx.on_memory_operation(addr_space, ptr, len as u32, false, false);
        self.host_read_slice(addr_space, ptr, len)
    }

    /// Reads a block of memory unnoticed by the context.
    pub fn host_read<T: MemoryCell, const BLOCK_SIZE: usize>(&self, addr_space: u32, ptr: u32) -> (r:
        [T; BLOCK_SIZE])
        requires
            block_holds::<T>(self.memory@, addr_space, ptr, BLOCK_SIZE as int),
        ensures
            cells_of(r@) == block(self.memory@, addr_space, ptr, BLOCK_SIZE as int),
    {
        self.memory.read(addr_space, ptr)
    }

    /// Writes a block of memory unnoticed by the context.
    pub fn host_write<T: MemoryCell, const BLOCK_SIZE: usize>(
        &mut self,
        addr_space: u32,
        ptr: u32,
        data: &[T; BLOCK_SIZE],
    )
        requires
            block_in(old(self).memory@, addr_space, ptr, BLOCK_SIZE as int),
            T::suits(addr_space),
        ensures
            final(self).same_registers(old(self)),
            final(self).ctx == old(self).ctx,
            final(self).memory@ == written(old(self).memory@, addr_space, ptr, cells_of(data@)),
    {
        self.memory.write(addr_space, ptr, *data);
    }

    /// Reads `len` cells unnoticed by the context.
    pub fn host_read_slice<T: MemoryCell>(&self, addr_space: u32, ptr: u32, len: usize) -> (r: Vec<
        T,
    >)
        requires
            block_holds::<T>(self.memory@, addr_space, ptr, len as int),
        ensures
            cells_of(r@) == block(self.memory@, addr_space, ptr, len as int),
    {
        self.memory.get_slice(addr_space, ptr, len)
    }
}

} // verus!
