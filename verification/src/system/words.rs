//! Numbers as they stand in memory and in instructions.
use crate::arch::execution_mode::MemoryOperation;
use crate::instructions::spec_imm_to_bytes;
use crate::limbs::{le_bytes, le_value};
use crate::system::memory::{word_at, word_cells, written};
use vstd::prelude::*;

verus! {

/// The number in four cells from `at` on: the cell at `at` counts ones, each later cell 256 times
/// as much as the one before it.
pub open spec fn number_at(cells: Seq<u32>, at: int) -> int {
    cells[at] + 0x100 * (cells[at + 1] + 0x100 * (cells[at + 2] + 0x100 * cells[at + 3]))
}

/// The number that a pattern of `n` values stands for in two's complement.
pub open spec fn twos_complement(x: int, n: int) -> int {
    if 2 * x < n {
        x
    } else {
        x - n
    }
}

/// Two numbers are the same in 32 bits.
pub open spec fn same_word(x: int, y: int) -> bool {
    (x - y) % 0x1_0000_0000 == 0
}

/// Every cell of the registers is a byte, and the four cells from `ptr` on exist.
pub open spec fn register_at(mem: Seq<Seq<u32>>, ptr: int) -> bool {
    &&& mem.len() > 1
    &&& 0 <= ptr
    &&& ptr + 4 <= mem[1].len()
    &&& forall|i: int| 0 <= i < mem[1].len() ==> #[trigger] mem[1][i] <= 255
}

/// Outside the `n` cells from `ptr` on of one address space, both memories hold the same.
pub open spec fn differ_only_at(
    before: Seq<Seq<u32>>,
    after: Seq<Seq<u32>>,
    space: int,
    ptr: int,
    n: int,
) -> bool {
    &&& after.len() == before.len()
    &&& forall|s: int|
        0 <= s < before.len() && s != space ==> #[trigger] after[s] == before[s]
    &&& after[space].len() == before[space].len()
    &&& forall|i: int|
        0 <= i < before[space].len() && !(ptr <= i < ptr + n) ==> #[trigger] after[space][i]
            == before[space][i]
}

/// A read of four cells of a register.
pub open spec fn reads_register(op: MemoryOperation, ptr: int) -> bool {
    op.address_space == 1 && op.ptr == ptr && op.size == 4 && !op.is_load_store && !op.is_write
}

/// A write of four cells of a register.
pub open spec fn writes_register(op: MemoryOperation, ptr: int) -> bool {
    op.address_space == 1 && op.ptr == ptr && op.size == 4 && !op.is_load_store && op.is_write
}

/// The number in four byte cells is the one that is read from them.
pub proof fn lemma_number_read(mem: Seq<Seq<u32>>, ptr: u32)
    requires
        register_at(mem, ptr as int),
    ensures
        word_at(mem, 1, ptr) == number_at(mem[1], ptr as int),
        0 <= number_at(mem[1], ptr as int) < 0x1_0000_0000,
{
    let cells = mem[1];
    assert(cells[ptr as int] <= 255);
    assert(cells[ptr + 1] <= 255);
    assert(cells[ptr + 2] <= 255);
    assert(cells[ptr + 3] <= 255);
}

/// A number that is written to a register is the one that stands there, and nothing else changes.
pub proof fn lemma_number_written(mem: Seq<Seq<u32>>, ptr: u32, x: u32)
    requires
        register_at(mem, ptr as int),
    ensures
        ({
            let after = written(mem, 1, ptr, word_cells(x));
            &&& number_at(after[1], ptr as int) == x
            &&& differ_only_at(mem, after, 1, ptr as int, 4)
            &&& register_at(after, ptr as int)
            &&& forall|i: int| 0 <= i < 4 ==> #[trigger] after[1][ptr + i] == le_bytes(x)[i]
        }),
{
    let after = written(mem, 1, ptr, word_cells(x));
    let cells = word_cells(x);
    assert forall|i: int| 0 <= i < 4 implies #[trigger] after[1][ptr + i] == le_bytes(x)[i] by {
        assert(after[1][ptr + i] == cells[i]);
    }
    assert(after[1][ptr + 0] == le_bytes(x)[0]);
    assert(after[1][ptr + 1] == le_bytes(x)[1]);
    assert(after[1][ptr + 2] == le_bytes(x)[2]);
    assert(after[1][ptr + 3] == le_bytes(x)[3]);
    assert forall|i: int| 0 <= i < after[1].len() implies #[trigger] after[1][i] <= 255 by {
        if ptr <= i < ptr + 4 {
            assert(after[1][i] == cells[i - ptr]);
        } else {
            assert(after[1][i] == mem[1][i]);
        }
    }
}

/// The number of a 24-bit immediate: its bits, with the top eight repeated above them.
pub open spec fn immediate(c: int) -> int {
    c + 0x100_0000 * (c / 0x1_0000)
}

/// The bytes of an immediate stand for its number.
pub proof fn lemma_immediate(c: u32)
    requires
        c < 0x100_0000,
    ensures
        le_value(spec_imm_to_bytes(c)) == immediate(c as int),
        0 <= immediate(c as int) < 0x1_0000_0000,
{
}

/// An immediate whose top eight bits are all equal stands for what its 24 bits stand for in two's
/// complement.
pub proof fn law_immediate_is_signed(c: int)
    requires
        0 <= c < 0x1_0000 || 0xff_0000 <= c < 0x100_0000,
    ensures
        same_word(immediate(c), twos_complement(c, 0x100_0000)),
{
}

} // verus!
