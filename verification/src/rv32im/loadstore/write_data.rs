//! What a load or store writes.
use crate::instructions::Rv32LoadStoreOpcode;
use vstd::prelude::*;

verus! {

/// The access of `opcode` at the given shift lies within `n` cells and is aligned to its size.
pub open spec fn write_defined(opcode: Rv32LoadStoreOpcode, shift: int, n: int) -> bool {
    match opcode {
        Rv32LoadStoreOpcode::LOADW | Rv32LoadStoreOpcode::STOREW => shift == 0,
        Rv32LoadStoreOpcode::LOADBU | Rv32LoadStoreOpcode::STOREB => 0 <= shift <= 3 && shift < n,
        Rv32LoadStoreOpcode::LOADHU => (shift == 0 || shift == 2) && (n / 2 == 0 || n / 2 + shift
            <= n),
        Rv32LoadStoreOpcode::STOREH => shift == 0 || shift == 2,
        _ => false,
    }
}

/// Cell `i` of what `opcode` writes, where `read` is the data that moves, `prev` is what the
/// target holds, and the access starts `shift` cells into an aligned block of `n`.
///
/// A load takes the cells from `shift` on, as many as its size, and fills up with zeros. A store
/// replaces the cells from `shift` on, as many as its size, and keeps the others.
pub open spec fn write_cell(
    opcode: Rv32LoadStoreOpcode,
    read: Seq<u8>,
    prev: Seq<u32>,
    shift: int,
    n: int,
    i: int,
) -> u32 {
    let size = match opcode {
        Rv32LoadStoreOpcode::LOADW | Rv32LoadStoreOpcode::STOREW => n,
        Rv32LoadStoreOpcode::LOADHU | Rv32LoadStoreOpcode::STOREH => n / 2,
        _ => 1,
    };
    if opcode.is_load() {
        if i < size {
            read[i + shift] as u32
        } else {
            0
        }
    } else {
        if shift <= i < size + shift {
            read[i - shift] as u32
        } else {
            prev[i]
        }
    }
}

/// All cells that `opcode` writes.
pub open spec fn write_cells(
    opcode: Rv32LoadStoreOpcode,
    read: Seq<u8>,
    prev: Seq<u32>,
    shift: int,
) -> Seq<u32> {
    Seq::new(read.len(), |i: int| write_cell(opcode, read, prev, shift, read.len() as int, i))
}

/// The write data.
///
/// The access must be aligned to its size: `shift` is the pointer modulo four, so that the
/// pointer minus `shift` is the start of an aligned block.
pub fn run_write_data<const NUM_CELLS: usize>(
    opcode: Rv32LoadStoreOpcode,
    read_data: [u8; NUM_CELLS],
    prev_data: [u32; NUM_CELLS],
    shift: usize,
) -> (r: [u32; NUM_CELLS])
    requires
        write_defined(opcode, shift as int, NUM_CELLS as int),
    ensures
        r@ == write_cells(opcode, read_data@, prev_data@, shift as int),
{
    let half = NUM_CELLS / 2;
    let mut write_data = [0u32; NUM_CELLS];
    match opcode {
        Rv32LoadStoreOpcode::LOADW | Rv32LoadStoreOpcode::STOREW => {
            for i in 0..NUM_CELLS
                invariant
                    forall|j: int| 0 <= j < i ==> #[trigger] write_data[j] == read_data[j],
            {
                write_data[i] = read_data[i] as u32;
            }
        },
        Rv32LoadStoreOpcode::LOADBU => {
            write_data[0] = read_data[shift] as u32;
        },
        Rv32LoadStoreOpcode::LOADHU => {
            for i in 0..half
                invariant
                    half == NUM_CELLS / 2,
                    half == 0 || half + shift <= NUM_CELLS,
                    forall|j: int| 0 <= j < i ==> #[trigger] write_data[j] == read_data[j + shift],
                    forall|j: int| i <= j < NUM_CELLS ==> #[trigger] write_data[j] == 0,
            {
                write_data[i] = read_data[i + shift] as u32;
            }
        },
        Rv32LoadStoreOpcode::STOREB => {
            write_data = prev_data;
            write_data[shift] = read_data[0] as u32;
        },
        _ => {
            for i in 0..NUM_CELLS
                invariant
                    half == NUM_CELLS / 2,
                    shift <= 2,
                    forall|j: int|
                        0 <= j < i ==> #[trigger] write_data[j] == (if shift <= j < half + shift {
                            read_data[j - shift] as u32
                        } else {
                            prev_data[j]
                        }),
            {
                write_data[i] = if i >= shift && i - shift < half {
                    read_data[i - shift] as u32
                } else {
                    prev_data[i]
                };
            }
        },
    }
    assert(write_data@ =~= write_cells(opcode, read_data@, prev_data@, shift as int));
    write_data
}

} // verus!
