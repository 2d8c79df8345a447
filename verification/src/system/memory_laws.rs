//! What reads and writes of memory do, cell by cell.
use crate::field::PrimeField32;
use crate::system::memory::{
    block, byte_at, cells_of, in_bounds, lookup_in, AddressMap, MemoryCell, SparseByte,
    SparseMemoryImage,
};
use vstd::prelude::*;

verus! {

/// The cells from `ptr` on hold the values.
pub open spec fn holds<T: MemoryCell>(
    memory: AddressMap,
    addr_space: u32,
    ptr: u32,
    values: Seq<T>,
) -> bool {
    forall|i: int|
        0 <= i < values.len() ==> memory.mem@[addr_space as int]@[ptr + i] == (
        #[trigger] values[i]).cell()
}

/// There are `n` cells from `ptr` on.
pub open spec fn has_cells(memory: AddressMap, addr_space: u32, ptr: u32, n: int) -> bool {
    addr_space < memory.mem@.len() && ptr + n <= memory.mem@[addr_space as int]@.len()
}

/// Every cell outside the `n` cells from `ptr` on is the same in both memories.
pub open spec fn same_elsewhere(
    before: AddressMap,
    after: AddressMap,
    addr_space: u32,
    ptr: u32,
    n: int,
) -> bool {
    &&& after.mem@.len() == before.mem@.len()
    &&& forall|a: int|
        0 <= a < before.mem@.len() ==> (#[trigger] after.mem@[a])@.len() == before.mem@[a]@.len()
    &&& forall|a: int, i: int|
        0 <= a < before.mem@.len() && 0 <= i < before.mem@[a]@.len() && !(a == addr_space && ptr <= i
            < ptr + n) ==> #[trigger] after.mem@[a]@[i] == before.mem@[a]@[i]
}

/// Blocks of the view are blocks of cells.
pub proof fn lemma_block<T: MemoryCell>(
    memory: AddressMap,
    addr_space: u32,
    ptr: u32,
    values: Seq<T>,
)
    requires
        has_cells(memory, addr_space, ptr, values.len() as int),
    ensures
        cells_of(values) == block(memory@, addr_space, ptr, values.len() as int) ==> holds(
            memory,
            addr_space,
            ptr,
            values,
        ),
{
    let n = values.len() as int;
    let b = block(memory@, addr_space, ptr, n);
    if cells_of(values) == b {
        assert forall|i: int| 0 <= i < n implies memory.mem@[addr_space as int]@[ptr + i] == (
        #[trigger] values[i]).cell() by {
            assert(cells_of(values)[i] == values[i].cell());
            assert(b[i] == memory@[addr_space as int][ptr + i]);
        }
    }
}

/// A memory whose view is written to has the values and is otherwise the same.
pub proof fn lemma_written<T: MemoryCell>(
    before: AddressMap,
    after: AddressMap,
    addr_space: u32,
    ptr: u32,
    values: Seq<T>,
)
    requires
        has_cells(before, addr_space, ptr, values.len() as int),
        after@ == crate::system::memory::written(before@, addr_space, ptr, cells_of(values)),
    ensures
        holds(after, addr_space, ptr, values),
        same_elsewhere(before, after, addr_space, ptr, values.len() as int),
{
    let n = values.len() as int;
    assert(after@.len() == before@.len());
    assert forall|a: int| 0 <= a < before.mem@.len() implies (#[trigger] after.mem@[a])@.len()
        == before.mem@[a]@.len() by {
        assert(after@[a].len() == before@[a].len());
    }
    assert forall|i: int| 0 <= i < n implies after.mem@[addr_space as int]@[ptr + i] == (
    #[trigger] values[i]).cell() by {
        assert(after@[addr_space as int][ptr + i] == cells_of(values)[i]);
    }
    assert forall|a: int, i: int|
        0 <= a < before.mem@.len() && 0 <= i < before.mem@[a]@.len() && !(a == addr_space && ptr <= i
            < ptr + n) implies #[trigger] after.mem@[a]@[i] == before.mem@[a]@[i] by {
        assert(after@[a][i] == before@[a][i]);
    }
}

/// What is read is what the cells hold.
pub proof fn law_memory_read<T: MemoryCell, const N: usize>(
    memory: AddressMap,
    addr_space: u32,
    ptr: u32,
    r: [T; N],
)
    requires
        has_cells(memory, addr_space, ptr, N as int),
        call_ensures(AddressMap::read::<T, N>, (&memory, addr_space, ptr), r),
    ensures
        holds(memory, addr_space, ptr, r@),
{
    lemma_block(memory, addr_space, ptr, r@);
}

/// What is read in a slice is what the cells hold.
pub proof fn law_memory_slice<T: MemoryCell>(
    memory: AddressMap,
    addr_space: u32,
    ptr: u32,
    len: usize,
    r: Vec<T>,
)
    requires
        has_cells(memory, addr_space, ptr, len as int),
        call_ensures(AddressMap::get_slice::<T>, (&memory, addr_space, ptr, len), r),
    ensures
        r@.len() == len,
        holds(memory, addr_space, ptr, r@),
{
    assert(cells_of(r@).len() == len);
    lemma_block(memory, addr_space, ptr, r@);
}

/// After a write the cells hold what was written, and all others what they held.
pub proof fn law_memory_write<T: MemoryCell, const N: usize>(
    memory: &mut AddressMap,
    addr_space: u32,
    ptr: u32,
    data: [T; N],
)
    requires
        has_cells(*old(memory), addr_space, ptr, N as int),
        call_ensures(AddressMap::write::<T, N>, (memory, addr_space, ptr, data), ()),
    ensures
        holds(*final(memory), addr_space, ptr, data@),
        same_elsewhere(*old(memory), *final(memory), addr_space, ptr, N as int),
{
    lemma_written(*old(memory), *final(memory), addr_space, ptr, data@);
}

/// A new memory has as many cells as its sizes say, and they all hold zero.
pub proof fn law_memory_new(sizes: Vec<usize>, r: AddressMap)
    requires
        call_ensures(AddressMap::new, (&sizes,), r),
    ensures
        r.mem@.len() == sizes@.len(),
        forall|a: int| 0 <= a < sizes@.len() ==> (#[trigger] r.mem@[a])@.len() == sizes@[a],
        forall|a: int, i: int|
            0 <= a < sizes@.len() && 0 <= i < sizes@[a] ==> #[trigger] r.mem@[a]@[i] == 0,
{
    assert(r@.len() == sizes@.len());
    assert forall|a: int| 0 <= a < sizes@.len() implies (#[trigger] r.mem@[a])@.len()
        == sizes@[a] by {
        assert(r@[a].len() == sizes@[a]);
    }
    assert forall|a: int, i: int|
        0 <= a < sizes@.len() && 0 <= i < sizes@[a] implies #[trigger] r.mem@[a]@[i] == 0 by {
        assert(r@[a][i] == 0);
    }
}

/// A clone of a memory has the same cells.
pub proof fn law_memory_clone(memory: AddressMap, r: AddressMap)
    requires
        call_ensures(AddressMap::clone, (&memory,), r),
    ensures
        r.mem@.len() == memory.mem@.len(),
        forall|a: int| 0 <= a < r.mem@.len() ==> (#[trigger] r.mem@[a])@ == memory.mem@[a]@,
{
    assert(r@.len() == memory@.len());
    assert forall|a: int| 0 <= a < r.mem@.len() implies (#[trigger] r.mem@[a])@
        == memory.mem@[a]@ by {
        assert(r@[a] == memory@[a]);
    }
}

/// A byte that is listed once is the one that is found.
proof fn lemma_lookup_listed(bytes: Seq<SparseByte>, n: int)
    requires
        0 <= n < bytes.len(),
        forall|i: int, j: int|
            0 <= i < j < bytes.len() ==> !(#[trigger] bytes[i]).same_place(#[trigger] bytes[j]),
    ensures
        lookup_in(bytes, bytes[n].addr_space as int, bytes[n].index as int) == bytes[n].value,
    decreases bytes.len(),
{
    let last = bytes.len() - 1;
    if n < last {
        assert(!bytes[n].same_place(bytes[last]));
        assert(bytes.drop_last()[n] == bytes[n]);
        lemma_lookup_listed(bytes.drop_last(), n);
    }
}

/// Where no byte is listed, zero is found.
proof fn lemma_lookup_unlisted(bytes: Seq<SparseByte>, addr_space: int, index: int)
    requires
        forall|i: int|
            0 <= i < bytes.len() ==> !((#[trigger] bytes[i]).addr_space == addr_space
                && bytes[i].index == index),
    ensures
        lookup_in(bytes, addr_space, index) == 0,
    decreases bytes.len(),
{
    if bytes.len() > 0 {
        assert(bytes.last() == bytes[bytes.len() - 1]);
        lemma_lookup_unlisted(bytes.drop_last(), addr_space, index);
    }
}

/// Byte `index` of an address space: the cells of the first four address spaces are bytes, and those
/// of the others are numbers of four bytes, the lowest first.
pub open spec fn stored_byte(memory: AddressMap, addr_space: int, index: int) -> int {
    let cells = memory.mem@[addr_space]@;
    if addr_space < 4 {
        cells[index] as int
    } else if index % 4 == 0 {
        cells[index / 4] as int % 0x100
    } else if index % 4 == 1 {
        cells[index / 4] as int / 0x100 % 0x100
    } else if index % 4 == 2 {
        cells[index / 4] as int / 0x1_0000 % 0x100
    } else {
        cells[index / 4] as int / 0x100_0000
    }
}

/// The bytes of a memory that holds an image.
pub proof fn lemma_stored_byte(
    sizes: Seq<usize>,
    sparse: SparseMemoryImage,
    r: AddressMap,
    addr_space: int,
    index: int,
)
    requires
        sparse.wf(),
        r.has_sizes(sizes),
        forall|a: int, k: int|
            in_bounds(sizes, a, k) ==> #[trigger] byte_at(r@, a, k) == sparse.lookup(a, k),
        forall|a: int, i: int|
            a < 4 && 0 <= a < sizes.len() && 0 <= i < sizes[a] ==> #[trigger] r@[a][i] <= 255,
        0 <= addr_space < sizes.len(),
        0 <= index,
        addr_space < 4 ==> index < sizes[addr_space],
        addr_space >= 4 ==> index < 4 * sizes[addr_space],
    ensures
        forall|n: int|
            0 <= n < sparse.bytes@.len() && (#[trigger] sparse.bytes@[n]).addr_space == addr_space
                && sparse.bytes@[n].index == index ==> stored_byte(r, addr_space, index)
                == sparse.bytes@[n].value,
        (forall|n: int|
            0 <= n < sparse.bytes@.len() ==> !((#[trigger] sparse.bytes@[n]).addr_space
                == addr_space && sparse.bytes@[n].index == index)) ==> stored_byte(
            r,
            addr_space,
            index,
        ) == 0,
        r.mem@.len() == sizes.len(),
        r.mem@[addr_space]@.len() == sizes[addr_space],
{
    assert(r@.len() == sizes.len());
    assert(r@[addr_space].len() == sizes[addr_space]);
    assert(in_bounds(sizes, addr_space, index));
    assert(byte_at(r@, addr_space, index) == sparse.lookup(addr_space, index));
    if addr_space < 4 {
        assert(index / 1 == index && index % 1 == 0);
        assert(r@[addr_space][index] <= 255);
    }
    assert(stored_byte(r, addr_space, index) == byte_at(r@, addr_space, index));
    assert forall|n: int|
        0 <= n < sparse.bytes@.len() && (#[trigger] sparse.bytes@[n]).addr_space == addr_space
            && sparse.bytes@[n].index == index implies stored_byte(r, addr_space, index)
        == sparse.bytes@[n].value by {
        lemma_lookup_listed(sparse.bytes@, n);
    }
    if forall|n: int|
        0 <= n < sparse.bytes@.len() ==> !((#[trigger] sparse.bytes@[n]).addr_space == addr_space
            && sparse.bytes@[n].index == index) {
        lemma_lookup_unlisted(sparse.bytes@, addr_space, index);
    }
}

/// A memory that is made of listed bytes has each of them in its place, and zeros elsewhere.
pub proof fn law_memory_from_sparse(
    sizes: Vec<usize>,
    sparse: SparseMemoryImage,
    r: AddressMap,
    addr_space: int,
    index: int,
)
    requires
        sparse.wf(),
        0 <= addr_space < sizes@.len(),
        0 <= index,
        addr_space < 4 ==> index < sizes@[addr_space],
        addr_space >= 4 ==> index < 4 * sizes@[addr_space],
        call_ensures(AddressMap::from_sparse, (&sizes, &sparse), r),
    ensures
        forall|n: int|
            0 <= n < sparse.bytes@.len() && (#[trigger] sparse.bytes@[n]).addr_space == addr_space
                && sparse.bytes@[n].index == index ==> stored_byte(r, addr_space, index)
                == sparse.bytes@[n].value,
        (forall|n: int|
            0 <= n < sparse.bytes@.len() ==> !((#[trigger] sparse.bytes@[n]).addr_space
                == addr_space && sparse.bytes@[n].index == index)) ==> stored_byte(
            r,
            addr_space,
            index,
        ) == 0,
        r.mem@.len() == sizes@.len(),
        r.mem@[addr_space]@.len() == sizes@[addr_space],
{
    lemma_stored_byte(sizes@, sparse, r, addr_space, index);
}

/// A byte fills a cell with its value, and a cell gives back the byte.
pub proof fn law_byte_cells(x: u8, cell: u32, to: u32, back: u8)
    requires
        cell <= 255,
        call_ensures(<u8 as MemoryCell>::to_cell, (x,), to),
        call_ensures(<u8 as MemoryCell>::from_cell, (cell,), back),
    ensures
        to == x,
        back == cell,
        x.cell() == x,
{
}

/// An element fills a cell with its canonical value, and a cell gives back the element with that
/// value.
pub proof fn law_element_cells<F: PrimeField32>(x: F, cell: u32, to: u32, back: F)
    requires
        cell < F::order(),
        call_ensures(<F as MemoryCell>::to_cell, (x,), to),
        call_ensures(<F as MemoryCell>::from_cell, (cell,), back),
    ensures
        to == x.val(),
        back.val() == cell,
        x.cell() == x.val(),
{
    F::order_is_prime();
    x.val_is_canonical();
    back.val_is_canonical();
}

} // verus!
