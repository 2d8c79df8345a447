//! What memory with timestamps does, cell by cell.
use crate::system::memory::{cells_of, AddressMap, MemoryCell};
use crate::system::memory_laws::{
    has_cells, holds, lemma_block, lemma_written, same_elsewhere,
};
use crate::system::online::{latest, GuestMemory, TracingMemory};
use vstd::prelude::*;

verus! {

/// What is read from guest memory is what its cells hold.
pub proof fn law_guest_read<T: MemoryCell, const N: usize>(
    memory: GuestMemory,
    addr_space: u32,
    ptr: u32,
    r: [T; N],
)
    requires
        has_cells(memory.memory, addr_space, ptr, N as int),
        call_ensures(GuestMemory::read::<T, N>, (&memory, addr_space, ptr), r),
    ensures
        holds(memory.memory, addr_space, ptr, r@),
{
    lemma_block(memory.memory, addr_space, ptr, r@);
}

/// What is read in a slice is what the cells of guest memory hold.
pub proof fn law_guest_slice<T: MemoryCell>(
    memory: GuestMemory,
    addr_space: u32,
    ptr: u32,
    len: usize,
    r: Vec<T>,
)
    requires
        has_cells(memory.memory, addr_space, ptr, len as int),
        call_ensures(GuestMemory::get_slice::<T>, (&memory, addr_space, ptr, len), r),
    ensures
        r@.len() == len,
        holds(memory.memory, addr_space, ptr, r@),
{
    assert(cells_of(r@).len() == len);
    lemma_block(memory.memory, addr_space, ptr, r@);
}

/// A write to guest memory sets its cells and no others.
pub proof fn law_guest_write<T: MemoryCell, const N: usize>(
    memory: &mut GuestMemory,
    addr_space: u32,
    ptr: u32,
    data: [T; N],
)
    requires
        has_cells(old(memory).memory, addr_space, ptr, N as int),
        call_ensures(GuestMemory::write::<T, N>, (memory, addr_space, ptr, data), ()),
    ensures
        holds(final(memory).memory, addr_space, ptr, data@),
        same_elsewhere(old(memory).memory, final(memory).memory, addr_space, ptr, N as int),
{
    lemma_written(old(memory).memory, final(memory).memory, addr_space, ptr, data@);
}

/// `time` is the latest of the times of the `n` cells from `ptr` on; zero if there are none.
pub open spec fn is_latest(times: AddressMap, addr_space: u32, ptr: u32, n: int, time: u32) -> bool {
    &&& forall|i: int| ptr <= i < ptr + n ==> #[trigger] times.mem@[addr_space as int]@[i] <= time
    &&& time == 0 || exists|i: int|
        ptr <= i < ptr + n && #[trigger] times.mem@[addr_space as int]@[i] == time
}

/// The `n` cells from `ptr` on were accessed at `now`, and no other cell was.
pub open spec fn marked(
    before: AddressMap,
    after: AddressMap,
    addr_space: u32,
    ptr: u32,
    n: int,
    now: u32,
) -> bool {
    &&& forall|i: int| ptr <= i < ptr + n ==> #[trigger] after.mem@[addr_space as int]@[i] == now
    &&& same_elsewhere(before, after, addr_space, ptr, n)
}

proof fn lemma_latest(times: Seq<u32>, ptr: int, n: int)
    requires
        0 <= ptr,
        0 <= n,
        ptr + n <= times.len(),
    ensures
        forall|i: int| ptr <= i < ptr + n ==> #[trigger] times[i] <= latest(times, ptr, n),
        latest(times, ptr, n) == 0 || exists|i: int|
            ptr <= i < ptr + n && #[trigger] times[i] == latest(times, ptr, n),
    decreases n,
{
    if n > 0 {
        lemma_latest(times, ptr, n - 1);
        let t = latest(times, ptr, n - 1);
        let last = times[ptr + n - 1];
        if t >= last && t != 0 {
            let i = choose|i: int| ptr <= i < ptr + n - 1 && #[trigger] times[i] == t;
            assert(times[i] == t);
        }
    }
}

/// The time that the memory tells is the latest, and afterwards the cells are marked.
pub proof fn lemma_touched(
    before: TracingMemory,
    after: TracingMemory,
    addr_space: u32,
    ptr: u32,
    n: int,
)
    requires
        before.wf(),
        0 <= n,
        has_cells(before.data, addr_space, ptr, n),
        after.times() == before.touched(addr_space, ptr, n),
    ensures
        is_latest(
            before.access_times,
            addr_space,
            ptr,
            n,
            before.last_access(addr_space, ptr, n),
        ),
        marked(before.access_times, after.access_times, addr_space, ptr, n, before.timestamp),
{
    let a0 = addr_space as int;
    assert(before.data@.len() == before.data.mem@.len());
    assert(before.times()[a0].len() == before.data@[a0].len());
    let times = before.times()[a0];
    assert(times == before.access_times.mem@[a0]@);
    lemma_latest(times, ptr as int, n);
    assert(after.times().len() == before.times().len());
    let (b, c) = (before.access_times, after.access_times);
    assert forall|a: int| 0 <= a < b.mem@.len() implies (#[trigger] c.mem@[a])@.len()
        == b.mem@[a]@.len() by {
        assert(after.times()[a].len() == before.times()[a].len());
    }
    assert forall|i: int| ptr <= i < ptr + n implies #[trigger] c.mem@[a0]@[i]
        == before.timestamp by {
        assert(after.times()[a0][i] == before.timestamp);
    }
    assert forall|a: int, i: int|
        0 <= a < b.mem@.len() && 0 <= i < b.mem@[a]@.len() && !(a == addr_space && ptr <= i < ptr
            + n) implies #[trigger] c.mem@[a]@[i] == b.mem@[a]@[i] by {
        assert(after.times()[a][i] == before.times()[a][i]);
    }
}

/// A memory that was not accessed yet starts at time one, with the given cells, each last accessed
/// at time zero.
pub proof fn law_tracing_new(data: AddressMap, r: TracingMemory)
    requires
        call_ensures(TracingMemory::new, (data,), r),
    ensures
        r.timestamp == 1,
        r.data == data,
        r.access_times.mem@.len() == data.mem@.len(),
        forall|a: int, i: int|
            0 <= a < data.mem@.len() && 0 <= i < data.mem@[a]@.len() ==> #[trigger]
                r.access_times.mem@[a]@[i] == 0,
{
    assert(r.times().len() == data@.len());
    assert forall|a: int, i: int|
        0 <= a < data.mem@.len() && 0 <= i < data.mem@[a]@.len() implies #[trigger]
        r.access_times.mem@[a]@[i] == 0 by {
        assert(r.times()[a][i] == 0);
    }
}

/// A read tells what the cells hold and when one of them was last accessed, changes no cell, marks
/// the cells as accessed now, and lets the time pass.
pub proof fn law_tracing_read<T: MemoryCell, const N: usize>(
    memory: &mut TracingMemory,
    addr_space: u32,
    ptr: u32,
    r: (u32, [T; N]),
)
    requires
        old(memory).wf(),
        has_cells(old(memory).data, addr_space, ptr, N as int),
        call_ensures(TracingMemory::read::<T, N>, (memory, addr_space, ptr), r),
    ensures
        is_latest(old(memory).access_times, addr_space, ptr, N as int, r.0),
        holds(old(memory).data, addr_space, ptr, r.1@),
        final(memory).data == old(memory).data,
        marked(
            old(memory).access_times,
            final(memory).access_times,
            addr_space,
            ptr,
            N as int,
            old(memory).timestamp,
        ),
        final(memory).timestamp == old(memory).timestamp + 1,
{
    lemma_block(old(memory).data, addr_space, ptr, r.1@);
    lemma_touched(*old(memory), *final(memory), addr_space, ptr, N as int);
}

/// A write tells what the cells held and when one of them was last accessed, sets them and no
/// others, marks them as accessed now, and lets the time pass.
pub proof fn law_tracing_write<T: MemoryCell, const N: usize>(
    memory: &mut TracingMemory,
    addr_space: u32,
    ptr: u32,
    values: [T; N],
    r: (u32, [T; N]),
)
    requires
        old(memory).wf(),
        has_cells(old(memory).data, addr_space, ptr, N as int),
        call_ensures(TracingMemory::write::<T, N>, (memory, addr_space, ptr, values), r),
    ensures
        is_latest(old(memory).access_times, addr_space, ptr, N as int, r.0),
        holds(old(memory).data, addr_space, ptr, r.1@),
        holds(final(memory).data, addr_space, ptr, values@),
        same_elsewhere(old(memory).data, final(memory).data, addr_space, ptr, N as int),
        marked(
            old(memory).access_times,
            final(memory).access_times,
            addr_space,
            ptr,
            N as int,
            old(memory).timestamp,
        ),
        final(memory).timestamp == old(memory).timestamp + 1,
{
    lemma_block(old(memory).data, addr_space, ptr, r.1@);
    lemma_written(old(memory).data, final(memory).data, addr_space, ptr, values@);
    lemma_touched(*old(memory), *final(memory), addr_space, ptr, N as int);
}

/// A timestamp that passes without an access changes nothing else.
pub proof fn law_time_passes(memory: &mut TracingMemory)
    requires
        call_ensures(TracingMemory::increment_timestamp, (memory,), ()),
    ensures
        final(memory).timestamp == old(memory).timestamp + 1,
        final(memory).data == old(memory).data,
        final(memory).times() == old(memory).times(),
{
}

/// Guest memory is the memory that it is made of, or has no address space.
pub proof fn law_guest_new(memory: AddressMap, given: GuestMemory, empty: GuestMemory)
    requires
        call_ensures(GuestMemory::new, (memory,), given),
        call_ensures(GuestMemory::empty, (), empty),
    ensures
        given.memory == memory,
        empty.memory.mem@.len() == 0,
{
    assert(empty@.len() == 0);
}

} // verus!
