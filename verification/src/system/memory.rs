//! Guest memory: address spaces of cells.
use crate::field::PrimeField32;
use crate::instructions::NATIVE_AS;
use crate::limbs::{le_bytes, le_value, lemma_le_round_trip, u32_from_le_bytes, u32_to_le_bytes};
use vstd::prelude::*;

verus! {

/// Bytes in a cell of the address space: one below the native address space, four from there on.
pub open spec fn cell_size(addr_space: int) -> int {
    if addr_space < NATIVE_AS {
        1
    } else {
        4
    }
}

/// A value that fills one cell.
pub trait MemoryCell: Copy {
    /// What the cell holds.
    spec fn cell(self) -> u32;

    /// The cell holds a value of this type.
    spec fn valid(cell: u32) -> bool;

    /// The cells of the address space hold values of this type.
    spec fn suits(addr_space: u32) -> bool;

    /// What the cell of a value holds is valid.
    proof fn cell_is_valid(self)
        ensures
            Self::valid(self.cell()),
    ;

    fn to_cell(self) -> (r: u32)
        ensures
            r == self.cell(),
    ;

    fn from_cell(cell: u32) -> (r: Self)
        requires
            Self::valid(cell),
        ensures
            r.cell() == cell,
    ;

    /// The value whose cell is zero.
    fn default_cell() -> (r: Self)
        ensures
            r.cell() == 0,
    ;
}

impl MemoryCell for u8 {
    open spec fn cell(self) -> u32 {
        self as u32
    }

    open spec fn valid(cell: u32) -> bool {
        cell <= 255
    }

    open spec fn suits(addr_space: u32) -> bool {
        addr_space < NATIVE_AS
    }

    proof fn cell_is_valid(self) {
    }

    fn to_cell(self) -> (r: u32) {
        self as u32
    }

    fn from_cell(cell: u32) -> (r: Self) {
        cell as u8
    }

    fn default_cell() -> (r: Self) {
        0
    }
}

impl<F: PrimeField32> MemoryCell for F {
    open spec fn cell(self) -> u32 {
        self.val() as u32
    }

    open spec fn valid(cell: u32) -> bool {
        cell < F::order()
    }

    open spec fn suits(addr_space: u32) -> bool {
        addr_space >= NATIVE_AS
    }

    proof fn cell_is_valid(self) {
        F::order_is_prime();
        self.val_is_canonical();
    }

    fn to_cell(self) -> (r: u32) {
        proof {
            F::order_is_prime();
            self.val_is_canonical();
        }
        self.as_canonical_u32()
    }

    fn from_cell(cell: u32) -> (r: Self) {
        F::from_canonical_u32(cell)
    }

    fn default_cell() -> (r: Self) {
        F::zero()
    }
}

/// What the cells of a sequence of values hold.
pub open spec fn cells_of<T: MemoryCell>(data: Seq<T>) -> Seq<u32> {
    data.map_values(|x: T| x.cell())
}

/// The cells `data` written over the cells of `space` from `ptr` on.
pub open spec fn splice(space: Seq<u32>, ptr: int, data: Seq<u32>) -> Seq<u32> {
    Seq::new(
        space.len(),
        |i: int|
            if ptr <= i < ptr + data.len() {
                data[i - ptr]
            } else {
                space[i]
            },
    )
}

/// Byte `k` of a cell, the least significant first.
pub open spec fn byte_of(cell: u32, k: int) -> int {
    le_bytes(cell)[k] as int
}

/// All address spaces.
#[derive(Debug)]
pub struct AddressMap {
    pub mem: Vec<Vec<u32>>,
}

impl AddressMap {
    /// Reads `N` cells.
    pub fn read<T: MemoryCell, const N: usize>(&self, addr_space: u32, ptr: u32) -> (r: [T; N])
        requires
            block_holds::<T>(self@, addr_space, ptr, N as int),
        ensures
            cells_of(r@) == block(self@, addr_space, ptr, N as int),
    {
        let mut r = [T::default_cell();N];
        let a = addr_space as usize;
        let start = ptr as usize;
        assert(self.mem@[a as int]@ == self@[addr_space as int]);
        for i in 0..N
            invariant
                block_holds::<T>(self@, addr_space, ptr, N as int),
                a == addr_space,
                start == ptr,
                self.mem@[a as int]@ == self@[addr_space as int],
                a < self.mem@.len(),
                forall|j: int|
                    0 <= j < i ==> (#[trigger] r[j]).cell() == self@[addr_space as int][ptr + j],
        {
            assert(T::valid(self@[addr_space as int][ptr + i]));
            let space = &self.mem[a];
            assert(space.len() == space@.len());
            r[i] = T::from_cell(space[start + i]);
        }
        assert(cells_of(r@) =~= block(self@, addr_space, ptr, N as int));
        r
    }

    /// Reads `len` cells.
    pub fn get_slice<T: MemoryCell>(&self, addr_space: u32, ptr: u32, len: usize) -> (r: Vec<T>)
        requires
            block_holds::<T>(self@, addr_space, ptr, len as int),
        ensures
            cells_of(r@) == block(self@, addr_space, ptr, len as int),
    {
        let mut r: Vec<T> = Vec::new();
        let a = addr_space as usize;
        let start = ptr as usize;
        assert(self.mem@[a as int]@ == self@[addr_space as int]);
        for i in 0..len
            invariant
                block_holds::<T>(self@, addr_space, ptr, len as int),
                a == addr_space,
                start == ptr,
                self.mem@[a as int]@ == self@[addr_space as int],
                a < self.mem@.len(),
                r@.len() == i,
                forall|j: int|
                    0 <= j < i ==> (#[trigger] r@[j]).cell() == self@[addr_space as int][ptr + j],
        {
            assert(T::valid(self@[addr_space as int][ptr + i]));
            let space = &self.mem[a];
            assert(space.len() == space@.len());
            r.push(T::from_cell(space[start + i]));
        }
        assert(cells_of(r@) =~= block(self@, addr_space, ptr, len as int));
        r
    }

    /// Writes `N` cells.
    pub fn write<T: MemoryCell, const N: usize>(&mut self, addr_space: u32, ptr: u32, data: [T; N])
        requires
            block_in(old(self)@, addr_space, ptr, N as int),
            T::suits(addr_space),
        ensures
            final(self)@ == written(old(self)@, addr_space, ptr, cells_of(data@)),
    {
        let ghost before = self@;
        let ghost a0 = addr_space as int;
        let a = addr_space as usize;
        let start = ptr as usize;
        let mut space: Vec<u32> = Vec::new();
        std::mem::swap(&mut space, &mut self.mem[a]);
        assert(space@ == before[a0]);
        for i in 0..N
            invariant
                a0 == addr_space,
                start == ptr,
                block_in(before, addr_space, ptr, N as int),
                space@ == splice(before[a0], ptr as int, cells_of(data@).take(i as int)),
        {
            assert(space.len() == space@.len());
            space[start + i] = data[i].to_cell();
            assert(space@ =~= splice(before[a0], ptr as int, cells_of(data@).take(i + 1)));
        }
        assert(cells_of(data@).take(N as int) =~= cells_of(data@));
        let ghost after = space@;
        std::mem::swap(&mut space, &mut self.mem[a]);
        assert(self@ =~= before.update(a0, after));
    }
}

/// What is written is read back, and cells outside the block keep their values.
pub proof fn law_read_after_write(
    mem: Seq<Seq<u32>>,
    addr_space: u32,
    ptr: u32,
    data: Seq<u32>,
    other_space: u32,
    other_ptr: u32,
    n: int,
)
    requires
        block_in(mem, addr_space, ptr, data.len() as int),
        0 <= n,
        block_in(mem, other_space, other_ptr, n),
    ensures
        block(written(mem, addr_space, ptr, data), addr_space, ptr, data.len() as int) == data,
        other_space != addr_space || other_ptr + n <= ptr || ptr + data.len() <= other_ptr ==> block(
            written(mem, addr_space, ptr, data),
            other_space,
            other_ptr,
            n,
        ) == block(mem, other_space, other_ptr, n),
{
    let after = written(mem, addr_space, ptr, data);
    assert(block(after, addr_space, ptr, data.len() as int) =~= data);
    if other_space != addr_space || other_ptr + n <= ptr || ptr + data.len() <= other_ptr {
        assert(block(after, other_space, other_ptr, n) =~= block(mem, other_space, other_ptr, n));
    }
}

/// Writing values of the type of an address space keeps every cell well-formed.
pub proof fn law_writes_keep_cells_valid(
    mem: Seq<Seq<u32>>,
    addr_space: u32,
    ptr: u32,
    data: Seq<u32>,
    order: int,
)
    requires
        cells_wf(mem, order),
        block_in(mem, addr_space, ptr, data.len() as int),
        forall|i: int|
            0 <= i < data.len() ==> ({
                &&& addr_space < NATIVE_AS ==> #[trigger] data[i] <= 255
                &&& addr_space >= NATIVE_AS ==> data[i] < order
            }),
    ensures
        cells_wf(written(mem, addr_space, ptr, data), order),
        written(mem, addr_space, ptr, data).len() == mem.len(),
        forall|a: int| 0 <= a < mem.len() ==> (#[trigger] written(mem, addr_space, ptr, data)[a]).len()
            == mem[a].len(),
{
}

/// The memory of a run between segments.
pub type MemoryImage = AddressMap;

impl Clone for AddressMap {
    fn clone(&self) -> (r: Self)
        ensures
            r@ == self@,
    {
        let mut mem: Vec<Vec<u32>> = Vec::new();
        for a in 0..self.mem.len()
            invariant
                mem@.len() == a,
                forall|i: int| 0 <= i < a ==> (#[trigger] mem@[i])@ == self.mem@[i]@,
        {
            let space = self.mem[a].clone();
            assert(space@ =~= self.mem@[a as int]@);
            mem.push(space);
        }
        let r = AddressMap { mem };
        assert(r@ =~= self@);
        r
    }
}

impl View for AddressMap {
    type V = Seq<Seq<u32>>;

    open spec fn view(&self) -> Seq<Seq<u32>> {
        self.mem@.map_values(|s: Vec<u32>| s@)
    }
}

/// The cells of the address spaces below the native one are bytes, the others are below `order`.
pub open spec fn cells_wf(mem: Seq<Seq<u32>>, order: int) -> bool {
    forall|a: int, i: int|
        0 <= a < mem.len() && 0 <= i < mem[a].len() ==> ({
            &&& a < NATIVE_AS ==> #[trigger] mem[a][i] <= 255
            &&& a >= NATIVE_AS ==> mem[a][i] < order
        })
}

/// `n` cells from `ptr` on lie in the address space.
pub open spec fn block_in(mem: Seq<Seq<u32>>, addr_space: u32, ptr: u32, n: int) -> bool {
    addr_space < mem.len() && ptr + n <= mem[addr_space as int].len()
}

/// `n` cells from `ptr` on.
pub open spec fn block(mem: Seq<Seq<u32>>, addr_space: u32, ptr: u32, n: int) -> Seq<u32> {
    mem[addr_space as int].subrange(ptr as int, ptr + n)
}

/// `n` cells from `ptr` on hold values of type `T`.
pub open spec fn block_holds<T: MemoryCell>(
    mem: Seq<Seq<u32>>,
    addr_space: u32,
    ptr: u32,
    n: int,
) -> bool {
    &&& block_in(mem, addr_space, ptr, n)
    &&& T::suits(addr_space)
    &&& forall|i: int| ptr <= i < ptr + n ==> T::valid(#[trigger] mem[addr_space as int][i])
}

/// The memory after `data` is written from `ptr` on.
pub open spec fn written(
    mem: Seq<Seq<u32>>,
    addr_space: u32,
    ptr: u32,
    data: Seq<u32>,
) -> Seq<Seq<u32>> {
    mem.update(addr_space as int, splice(mem[addr_space as int], ptr as int, data))
}

/// The byte at `index` of an address space, counted in bytes.
pub open spec fn byte_at(mem: Seq<Seq<u32>>, addr_space: int, index: int) -> int {
    let size = cell_size(addr_space);
    byte_of(mem[addr_space][index / size], index % size)
}

/// The index lies in an address space of the given sizes, counted in bytes.
pub open spec fn in_bounds(sizes: Seq<usize>, addr_space: int, index: int) -> bool {
    0 <= addr_space < sizes.len() && 0 <= index < sizes[addr_space] * cell_size(addr_space)
}

/// One byte of an initial memory.
#[derive(Clone, Copy, Debug, PartialEq, Eq, Structural)]
pub struct SparseByte {
    pub addr_space: u32,
    /// The index in the address space, counted in bytes.
    pub index: u32,
    pub value: u8,
}

/// An initial memory: the bytes that are not zero. No place occurs twice.
#[derive(Debug)]
pub struct SparseMemoryImage {
    pub bytes: Vec<SparseByte>,
}

impl SparseMemoryImage {
    /// No place occurs twice.
    pub open spec fn wf(&self) -> bool {
        forall|i: int, j: int|
            0 <= i < j < self.bytes@.len() ==> !(#[trigger] self.bytes@[i]).same_place(
                #[trigger] self.bytes@[j],
            )
    }

    /// Every byte lies in an address space of the given sizes.
    pub open spec fn fits(&self, sizes: Seq<usize>) -> bool {
        forall|i: int|
            0 <= i < self.bytes@.len() ==> in_bounds(
                sizes,
                (#[trigger] self.bytes@[i]).addr_space as int,
                self.bytes@[i].index as int,
            )
    }

    /// The byte at a place: the one that is listed, otherwise zero.
    pub open spec fn lookup(&self, addr_space: int, index: int) -> int {
        lookup_in(self.bytes@, addr_space, index)
    }
}

impl SparseByte {
    pub open spec fn at(self, addr_space: int, index: int) -> bool {
        self.addr_space == addr_space && self.index == index
    }

    pub open spec fn same_place(self, other: Self) -> bool {
        self.addr_space == other.addr_space && self.index == other.index
    }
}

/// The last byte in the list at a place, zero if there is none.
pub open spec fn lookup_in(bytes: Seq<SparseByte>, addr_space: int, index: int) -> int
    decreases bytes.len(),
{
    if bytes.len() == 0 {
        0
    } else if bytes.last().at(addr_space, index) {
        bytes.last().value as int
    } else {
        lookup_in(bytes.drop_last(), addr_space, index)
    }
}

impl AddressMap {
    /// Every cell holds a value of its address space.
    pub open spec fn wf(&self, order: int) -> bool {
        cells_wf(self@, order)
    }

    /// The number of cells of each address space.
    pub open spec fn has_sizes(&self, sizes: Seq<usize>) -> bool {
        &&& self@.len() == sizes.len()
        &&& forall|a: int| 0 <= a < sizes.len() ==> (#[trigger] self@[a]).len() == sizes[a]
    }

    /// A memory of zeros.
    pub fn new(sizes: &Vec<usize>) -> (r: Self)
        ensures
            r.has_sizes(sizes@),
            forall|a: int, i: int|
                0 <= a < sizes@.len() && 0 <= i < sizes@[a] ==> #[trigger] r@[a][i] == 0,
    {
        let mut mem: Vec<Vec<u32>> = Vec::new();
        for k in 0..sizes.len()
            invariant
                mem@.len() == k,
                forall|a: int| 0 <= a < k ==> (#[trigger] mem@[a])@.len() == sizes@[a],
                forall|a: int, i: int|
                    0 <= a < k && 0 <= i < sizes@[a] ==> #[trigger] mem@[a]@[i] == 0,
        {
            let n = sizes[k];
            let mut space: Vec<u32> = Vec::new();
            for j in 0..n
                invariant
                    space@.len() == j,
                    forall|i: int| 0 <= i < j ==> #[trigger] space@[i] == 0,
            {
                space.push(0);
            }
            mem.push(space);
        }
        let r = AddressMap { mem };
        assert forall|a: int| 0 <= a < sizes@.len() implies (#[trigger] r@[a]).len() == sizes@[a] by {
            assert(r.mem@[a]@.len() == sizes@[a]);
        }
        assert forall|a: int, i: int|
            0 <= a < sizes@.len() && 0 <= i < sizes@[a] implies #[trigger] r@[a][i] == 0 by {
            assert(r.mem@[a]@[i] == 0);
        }
        r
    }

    /// Sets one byte.
    fn set_byte(&mut self, byte: SparseByte, Ghost(sizes): Ghost<Seq<usize>>)
        requires
            old(self).has_sizes(sizes),
            in_bounds(sizes, byte.addr_space as int, byte.index as int),
            forall|i: int|
                byte.addr_space < NATIVE_AS && 0 <= i < sizes[byte.addr_space as int] ==> #[trigger] old(self)@[byte.addr_space as int][i]
                    <= 255,
        ensures
            final(self).has_sizes(sizes),
            forall|a: int, k: int|
                in_bounds(sizes, a, k) ==> #[trigger] byte_at(final(self)@, a, k) == (if byte.at(
                    a,
                    k,
                ) {
                    byte.value as int
                } else {
                    byte_at(old(self)@, a, k)
                }),
            forall|a: int, i: int|
                a < NATIVE_AS && 0 <= a < sizes.len() && 0 <= i < sizes[a] && old(self)@[a][i]
                    <= 255 ==> #[trigger] final(self)@[a][i] <= 255,
    {
        let ghost before = self@;
        let ghost a0 = byte.addr_space as int;
        assert(before[a0].len() == sizes[a0]);
        proof {
            lemma_cell_index(sizes, a0, byte.index as int);
        }
        let mut space: Vec<u32> = Vec::new();
        let a = byte.addr_space as usize;
        std::mem::swap(&mut space, &mut self.mem[a]);
        assert(space@ == before[a0]);
        let ghost cells = space@;
        let (at, cell): (usize, u32) = if byte.addr_space < NATIVE_AS {
            (byte.index as usize, byte.value as u32)
        } else {
            let at = byte.index as usize / 4;
            (at, set_byte_of(space[at], byte.index % 4, byte.value))
        };
        space[at] = cell;
        let ghost after = space@;
        std::mem::swap(&mut space, &mut self.mem[a]);
        assert(self@ =~= before.update(a0, after));
        assert(after.len() == cells.len());
        assert forall|a: int| 0 <= a < sizes.len() implies (#[trigger] self@[a]).len() == sizes[a] by {
            assert(before[a].len() == sizes[a]);
        }
        assert forall|a: int, k: int| in_bounds(sizes, a, k) implies #[trigger] byte_at(
            self@,
            a,
            k,
        ) == (if byte.at(a, k) {
            byte.value as int
        } else {
            byte_at(before, a, k)
        }) by {
            lemma_cell_index(sizes, a, k);
            lemma_cell_index(sizes, a0, byte.index as int);
            if a == a0 {
                assert(after[k / cell_size(a)] == if k / cell_size(a) == at {
                    cell
                } else {
                    cells[k / cell_size(a)]
                });
            }
        }
    }

    /// The memory whose bytes are those of `sparse`, and zero elsewhere.
    pub fn from_sparse(sizes: &Vec<usize>, sparse: &SparseMemoryImage) -> (r: Self)
        requires
            sparse.wf(),
            sparse.fits(sizes@),
        ensures
            r.has_sizes(sizes@),
            forall|a: int, k: int|
                in_bounds(sizes@, a, k) ==> #[trigger] byte_at(r@, a, k) == sparse.lookup(a, k),
            forall|a: int, i: int|
                a < NATIVE_AS && 0 <= a < sizes@.len() && 0 <= i < sizes@[a] ==> #[trigger] r@[a][i]
                    <= 255,
    {
        let mut r = Self::new(sizes);
        assert forall|a: int, k: int| in_bounds(sizes@, a, k) implies #[trigger] byte_at(r@, a, k)
            == 0 by {
            lemma_cell_index(sizes@, a, k);
            assert(r@[a][k / cell_size(a)] == 0);
        }
        assert(sparse.bytes@.take(0).len() == 0);
        for n in 0..sparse.bytes.len()
            invariant
                sparse.wf(),
                sparse.fits(sizes@),
                r.has_sizes(sizes@),
                forall|a: int, k: int|
                    in_bounds(sizes@, a, k) ==> #[trigger] byte_at(r@, a, k) == lookup_in(
                        sparse.bytes@.take(n as int),
                        a,
                        k,
                    ),
                forall|a: int, i: int|
                    a < NATIVE_AS && 0 <= a < sizes@.len() && 0 <= i < sizes@[a] ==> #[trigger] r@[a][i]
                        <= 255,
        {
            let byte = sparse.bytes[n];
            assert(in_bounds(sizes@, byte.addr_space as int, byte.index as int));
            r.set_byte(byte, Ghost(sizes@));
            proof {
                let next = sparse.bytes@.take(n + 1);
                assert(next.drop_last() =~= sparse.bytes@.take(n as int));
                assert(next.last() == byte);
            }
        }
        assert(sparse.bytes@.take(sparse.bytes@.len() as int) =~= sparse.bytes@);
        r
    }
}

/// A byte lies in one of the cells.
proof fn lemma_cell_index(sizes: Seq<usize>, addr_space: int, index: int)
    requires
        in_bounds(sizes, addr_space, index),
    ensures
        0 <= index / cell_size(addr_space) < sizes[addr_space],
        0 <= index % cell_size(addr_space) < 4,
        index == (index / cell_size(addr_space)) * cell_size(addr_space) + index % cell_size(
            addr_space,
        ),
        addr_space < NATIVE_AS ==> index / cell_size(addr_space) == index && index % cell_size(
            addr_space,
        ) == 0,
        addr_space >= NATIVE_AS ==> index / cell_size(addr_space) == index / 4 && index % cell_size(
            addr_space,
        ) == index % 4,
{
    if addr_space < NATIVE_AS {
        assert(index / 1 == index && index % 1 == 0);
    } else {
        assert(cell_size(addr_space) == 4);
    }
}

/// Replaces byte `k` of a cell.
fn set_byte_of(cell: u32, k: u32, value: u8) -> (r: u32)
    requires
        k < 4,
    ensures
        forall|j: int|
            0 <= j < 4 ==> #[trigger] byte_of(r, j) == (if j == k {
                value as int
            } else {
                byte_of(cell, j)
            }),
{
    let mut bytes = u32_to_le_bytes(cell);
    bytes[k as usize] = value;
    u32_from_le_bytes(bytes)
}

/// The number in four byte cells from `ptr` on, the least significant first.
pub open spec fn word_at(mem: Seq<Seq<u32>>, addr_space: u32, ptr: u32) -> u32 {
    let cells = mem[addr_space as int];
    (cells[ptr as int] + 256 * cells[ptr + 1] + 0x1_0000 * cells[ptr + 2] + 0x100_0000 * cells[ptr
        + 3]) as u32
}

/// The four byte cells of a number.
pub open spec fn word_cells(x: u32) -> Seq<u32> {
    le_bytes(x).map_values(|b: u8| b as u32)
}

/// Four bytes that were read stand for the number in their cells.
pub proof fn lemma_word_read(mem: Seq<Seq<u32>>, addr_space: u32, ptr: u32, bytes: Seq<u8>)
    requires
        block_in(mem, addr_space, ptr, 4),
        bytes.len() == 4,
        cells_of(bytes) == block(mem, addr_space, ptr, 4),
    ensures
        le_value(bytes) == word_at(mem, addr_space, ptr),
        bytes == le_bytes(word_at(mem, addr_space, ptr)),
{
    let cells = block(mem, addr_space, ptr, 4);
    let space = mem[addr_space as int];
    assert forall|k: int| 0 <= k < 4 implies #[trigger] space[ptr + k] == bytes[k] as u32 by {
        assert(cells_of(bytes)[k] == bytes[k].cell());
        assert(cells[k] == space[k + ptr]);
    }
    assert(space[ptr + 0] == bytes[0] as u32);
    assert(space[ptr + 1] == bytes[1] as u32);
    assert(space[ptr + 2] == bytes[2] as u32);
    assert(space[ptr + 3] == bytes[3] as u32);
    lemma_le_round_trip(0, bytes);
}

/// The bytes of a number fill its cells.
pub proof fn lemma_word_cells(x: u32, bytes: Seq<u8>)
    requires
        bytes == le_bytes(x),
    ensures
        cells_of(bytes) == word_cells(x),
{
    assert(cells_of(bytes) =~= word_cells(x));
}

} // verus!
