//! Memory during execution: plain, and with the time of the last access to every cell.

use crate::system::memory::{
    block, block_holds, block_in, cells_of, splice, written, AddressMap, MemoryCell,
};
use vstd::prelude::*;

verus! {

/// The memory of a guest program.
#[derive(Debug)]
pub struct GuestMemory {
    pub memory: AddressMap,
}

impl View for GuestMemory {
    type V = Seq<Seq<u32>>;

    open spec fn view(&self) -> Seq<Seq<u32>> {
        self.memory@
    }
}

impl GuestMemory {
    pub fn new(memory: AddressMap) -> (r: Self)
        ensures
            r.memory == memory,
            r@ == memory@,
    {
        GuestMemory { memory }
    }

    /// A memory without address spaces.
    pub fn empty() -> (r: Self)
        ensures
            r@ == Seq::<Seq<u32>>::empty(),
    {
        let r = GuestMemory { memory: AddressMap { mem: Vec::new() } };
        assert(r@ =~= Seq::<Seq<u32>>::empty());
        r
    }

    /// Reads `N` cells.
    pub fn read<T: MemoryCell, const N: usize>(&self, addr_space: u32, ptr: u32) -> (r: [T; N])
        requires
            block_holds::<T>(self@, addr_space, ptr, N as int),
        ensures
            cells_of(r@) == block(self@, addr_space, ptr, N as int),
    {
        self.memory.read(addr_space, ptr)
    }

    /// Writes `N` cells.
    pub fn write<T: MemoryCell, const N: usize>(&mut self, addr_space: u32, ptr: u32, data: [T; N])
        requires
            block_in(old(self)@, addr_space, ptr, N as int),
            T::suits(addr_space),
        ensures
            final(self)@ == written(old(self)@, addr_space, ptr, cells_of(data@)),
    {
        self.memory.write(addr_space, ptr, data);
    }

    /// Reads `len` cells.
    pub fn get_slice<T: MemoryCell>(&self, addr_space: u32, ptr: u32, len: usize) -> (r: Vec<T>)
        requires
            block_holds::<T>(self@, addr_space, ptr, len as int),
        ensures
            cells_of(r@) == block(self@, addr_space, ptr, len as int),
    {
        self.memory.get_slice(addr_space, ptr, len)
    }
}

/// The greatest of the first `n` numbers from `ptr` on, zero if there is none.
pub open spec fn latest(times: Seq<u32>, ptr: int, n: int) -> u32
    decreases n,
{
    if n <= 0 {
        0
    } else {
        let t = latest(times, ptr, n - 1);
        if t >= times[ptr + n - 1] {
            t
        } else {
            times[ptr + n - 1]
        }
    }
}

/// Memory that counts accesses: each access has a timestamp, and every cell knows the timestamp
/// of its last one.
#[derive(Debug)]
pub struct TracingMemory {
    pub timestamp: u32,
    pub data: AddressMap,
    /// The timestamp of the last access to every cell.
    pub access_times: AddressMap,
}

impl TracingMemory {
    /// The timestamps of the last accesses; zero where there was none.
    pub open spec fn times(&self) -> Seq<Seq<u32>> {
        self.access_times@
    }

    /// Every cell has a time, and it lies in the past.
    pub open spec fn wf(&self) -> bool {
        &&& self.times().len() == self.data@.len()
        &&& forall|a: int|
            0 <= a < self.data@.len() ==> (#[trigger] self.times()[a]).len() == self.data@[a].len()
        &&& forall|a: int, i: int|
            0 <= a < self.data@.len() && 0 <= i < self.data@[a].len()
                ==> #[trigger] self.times()[a][i] < self.timestamp
    }

    /// The times after an access to `n` cells from `ptr` on.
    pub open spec fn touched(&self, addr_space: u32, ptr: u32, n: int) -> Seq<Seq<u32>> {
        written(self.times(), addr_space, ptr, Seq::new(n as nat, |i: int| self.timestamp))
    }

    /// The time of the last access to any of `n` cells from `ptr` on.
    pub open spec fn last_access(&self, addr_space: u32, ptr: u32, n: int) -> u32 {
        latest(self.times()[addr_space as int], ptr as int, n)
    }

    /// A memory that was not accessed yet; the first access has timestamp one.
    pub fn new(data: AddressMap) -> (r: Self)
        ensures
            r.wf(),
            r.timestamp == 1,
            r.data == data,
            forall|a: int, i: int|
                0 <= a < data@.len() && 0 <= i < data@[a].len() ==> #[trigger] r.times()[a][i] == 0,
    {
        let mut sizes: Vec<usize> = Vec::new();
        for k in 0..data.mem.len()
            invariant
                sizes@.len() == k,
                forall|a: int| 0 <= a < k ==> #[trigger] sizes@[a] == data.mem@[a]@.len(),
        {
            sizes.push(data.mem[k].len());
        }
        let times = AddressMap::new(&sizes);
        let r = TracingMemory { timestamp: 1, data, access_times: times };
        assert forall|a: int| 0 <= a < data@.len() implies (#[trigger] r.times()[a]).len()
            == data@[a].len() by {
            assert(times@[a].len() == sizes@[a]);
        }
        assert forall|a: int, i: int|
            0 <= a < data@.len() && 0 <= i < data@[a].len() implies #[trigger] r.times()[a][i]
            == 0 by {
            assert(sizes@[a] == data@[a].len());
            assert(times@[a][i] == 0);
        }
        r
    }

    /// Marks `N` cells as accessed now, and returns the time of the last access to any of them.
    fn touch<const N: usize>(&mut self, addr_space: u32, ptr: u32) -> (t_prev: u32)
        requires
            old(self).wf(),
            block_in(old(self).data@, addr_space, ptr, N as int),
            old(self).timestamp < u32::MAX,
        ensures
            final(self).wf(),
            final(self).timestamp == old(self).timestamp + 1,
            final(self).data == old(self).data,
            final(self).times() == old(self).touched(addr_space, ptr, N as int),
            t_prev == old(self).last_access(addr_space, ptr, N as int),
    {
        let ghost before = *self;
        let ghost a0 = addr_space as int;
        let a = addr_space as usize;
        let start = ptr as usize;
        let now = self.timestamp;
        let mut t_prev: u32 = 0;
        let mut space: Vec<u32> = Vec::new();
        assert(self.times()[a0].len() == self.data@[a0].len());
        std::mem::swap(&mut space, &mut self.access_times.mem[a]);
        assert(space@ == before.times()[a0]);
        for i in 0..N
            invariant
                a0 == addr_space,
                start == ptr,
                now == before.timestamp,
                before.times()[a0].len() == before.data@[a0].len(),
                block_in(before.data@, addr_space, ptr, N as int),
                t_prev == latest(before.times()[a0], ptr as int, i as int),
                space@ == splice(before.times()[a0], ptr as int, Seq::new(i as nat, |j: int| now)),
        {
            assert(space.len() == space@.len());
            let t = space[start + i];
            assert(t == before.times()[a0][ptr + i]);
            if t > t_prev {
                t_prev = t;
            }
            space[start + i] = now;
            assert(space@ =~= splice(
                before.times()[a0],
                ptr as int,
                Seq::new((i + 1) as nat, |j: int| now),
            ));
        }
        let ghost after = space@;
        std::mem::swap(&mut space, &mut self.access_times.mem[a]);
        self.timestamp = now + 1;
        assert(self.times() =~= before.times().update(a0, after));
        assert(self.times() =~= before.touched(addr_space, ptr, N as int));
        t_prev
    }

    /// Reads `BLOCK_SIZE` cells at the next timestamp. Returns the time of the last access to any
    /// of them, and their values.
    pub fn read<T: MemoryCell, const BLOCK_SIZE: usize>(&mut self, addr_space: u32, ptr: u32) -> (r:
        (u32, [T; BLOCK_SIZE]))
        requires
            old(self).wf(),
            block_holds::<T>(old(self).data@, addr_space, ptr, BLOCK_SIZE as int),
            old(self).timestamp < u32::MAX,
        ensures
            final(self).wf(),
            final(self).timestamp == old(self).timestamp + 1,
            final(self).data == old(self).data,
            final(self).times() == old(self).touched(addr_space, ptr, BLOCK_SIZE as int),
            r.0 == old(self).last_access(addr_space, ptr, BLOCK_SIZE as int),
            cells_of(r.1@) == block(old(self).data@, addr_space, ptr, BLOCK_SIZE as int),
    {
        let t_prev = self.touch::<BLOCK_SIZE>(addr_space, ptr);
        let data = self.data.read(addr_space, ptr);
        (t_prev, data)
    }

    /// Writes `BLOCK_SIZE` cells at the next timestamp. Returns the time of the last access to
    /// any of them, and the values that they held.
    pub fn write<T: MemoryCell, const BLOCK_SIZE: usize>(
        &mut self,
        addr_space: u32,
        ptr: u32,
        values: [T; BLOCK_SIZE],
    ) -> (r: (u32, [T; BLOCK_SIZE]))
        requires
            old(self).wf(),
            block_holds::<T>(old(self).data@, addr_space, ptr, BLOCK_SIZE as int),
            old(self).timestamp < u32::MAX,
        ensures
            final(self).wf(),
            final(self).timestamp == old(self).timestamp + 1,
            final(self).data@ == written(old(self).data@, addr_space, ptr, cells_of(values@)),
            final(self).times() == old(self).touched(addr_space, ptr, BLOCK_SIZE as int),
            r.0 == old(self).last_access(addr_space, ptr, BLOCK_SIZE as int),
            cells_of(r.1@) == block(old(self).data@, addr_space, ptr, BLOCK_SIZE as int),
    {
        let t_prev = self.touch::<BLOCK_SIZE>(addr_space, ptr);
        let prev = self.data.read(addr_space, ptr);
        self.data.write(addr_space, ptr, values);
        (t_prev, prev)
    }

    /// Lets one timestamp pass without an access.
    pub fn increment_timestamp(&mut self)
        requires
            old(self).wf(),
            old(self).timestamp < u32::MAX,
        ensures
            final(self).wf(),
            final(self).timestamp == old(self).timestamp + 1,
            final(self).data == old(self).data,
            final(self).times() == old(self).times(),
    {
        self.timestamp = self.timestamp + 1;
    }
}

/// The time of the last access to a block lies in the past.
pub proof fn law_last_access_past(memory: TracingMemory, addr_space: u32, ptr: u32, n: int)
    requires
        memory.wf(),
        0 <= n,
        block_in(memory.data@, addr_space, ptr, n),
        memory.timestamp > 0,
    ensures
        memory.last_access(addr_space, ptr, n) < memory.timestamp,
    decreases n,
{
    if n > 0 {
        law_last_access_past(memory, addr_space, ptr, n - 1);
        assert(memory.times()[addr_space as int].len() == memory.data@[addr_space as int].len());
        assert(memory.times()[addr_space as int][ptr + n - 1] < memory.timestamp);
    }
}

/// After an access to a block, the last access to any part of it is that access.
pub proof fn law_access_is_last(
    before: TracingMemory,
    after: TracingMemory,
    addr_space: u32,
    ptr: u32,
    n: int,
    part: u32,
    m: int,
)
    requires
        before.wf(),
        after.wf(),
        before.timestamp > 0,
        block_in(before.data@, addr_space, ptr, n),
        after.times() == before.touched(addr_space, ptr, n),
        ptr <= part,
        1 <= m,
        part + m <= ptr + n,
    ensures
        after.last_access(addr_space, part, m) == before.timestamp,
    decreases m,
{
    let times = after.times()[addr_space as int];
    assert(before.times()[addr_space as int].len() == before.data@[addr_space as int].len());
    assert(times[part + m - 1] == before.timestamp);
    if m > 1 {
        law_access_is_last(before, after, addr_space, ptr, n, part, m - 1);
    } else {
        assert(latest(times, part as int, 0) == 0);
    }
}

} // verus!
