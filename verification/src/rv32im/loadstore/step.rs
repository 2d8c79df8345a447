//! Trace generation for the load and store chip.
use crate::air::{array_vals, byte_vals, bytes_canonical, field_bytes};
use crate::field::PrimeField32;
use crate::instructions::{Instruction, Rv32LoadStoreOpcode, DEFAULT_PC_STEP};
use crate::rv32im::loadstore::columns::{InstructionOpcode, LoadStoreCoreCols};
use crate::rv32im::loadstore::write_data::{run_write_data, write_cells, write_defined};
use vstd::prelude::*;

verus! {

/// What a row is filled from.
#[derive(Clone, Copy, Debug)]
pub struct LoadStoreCoreRecord<const NUM_CELLS: usize> {
    pub local_opcode: u8,
    pub shift_amount: u8,
    pub read_data: [u8; NUM_CELLS],
    /// What the target held; a cell of the native address space exceeds a byte.
    pub prev_data: [u32; NUM_CELLS],
}

impl<const NUM_CELLS: usize> LoadStoreCoreRecord<NUM_CELLS> {
    /// The record is of `opcode`.
    pub open spec fn is_of(self, opcode: Rv32LoadStoreOpcode) -> bool {
        self.local_opcode == opcode.index()
    }
}

/// The integers of a sequence of words.
pub open spec fn word_vals(s: Seq<u32>) -> Seq<int> {
    s.map_values(|x: u32| x as int)
}

/// Every word is a canonical value of the field of order `p`.
pub open spec fn words_canonical(s: Seq<u32>, p: int) -> bool {
    forall|i: int| 0 <= i < s.len() ==> #[trigger] s[i] < p
}

/// The elements with the given canonical values.
fn field_words<F: PrimeField32, const N: usize>(words: &[u32; N]) -> (r: [F; N])
    requires
        words_canonical(words@, F::order()),
    ensures
        array_vals(r) == word_vals(words@),
{
    let mut r = [F::zero(); N];
    for i in 0..N
        invariant
            words_canonical(words@, F::order()),
            forall|j: int| 0 <= j < i ==> (#[trigger] r[j]).val() == words[j],
    {
        assert(words@[i as int] < F::order());
        r[i] = F::from_canonical_u32(words[i]);
    }
    assert(array_vals(r) =~= word_vals(words@));
    r
}

pub struct LoadStoreStep<const NUM_CELLS: usize> {
    pub offset: usize,
}

impl<const NUM_CELLS: usize> LoadStoreStep<NUM_CELLS> {
    pub fn new(offset: usize) -> (r: Self)
        ensures
            r.offset == offset,
    {
        LoadStoreStep { offset }
    }

    /// The index is that of an opcode of this class.
    pub open spec fn handles(&self, opcode: usize) -> bool {
        self.offset <= opcode < self.offset + 8
    }

    pub fn get_opcode_name(&self, opcode: usize) -> (r: String)
        requires
            self.handles(opcode),
        ensures
            forall|op: Rv32LoadStoreOpcode|
                op.index() == opcode - self.offset ==> r@ == #[trigger] op.spec_name(),
    {
        Rv32LoadStoreOpcode::from_usize(opcode - self.offset).name()
    }

    /// Executes an instruction on what the adapter read: the cells of the target, the data that
    /// moves, and the shift. Returns what the adapter is to write and the record of the row; `pc`
    /// moves to the next instruction.
    pub fn execute<F>(
        &self,
        pc: &mut u32,
        instruction: &Instruction<F>,
        reads: (([u32; NUM_CELLS], [u8; NUM_CELLS]), u8),
    ) -> (r: ([u32; NUM_CELLS], LoadStoreCoreRecord<NUM_CELLS>))
        requires
            self.handles(instruction.opcode.index),
            forall|op: Rv32LoadStoreOpcode|
                op.index() == instruction.opcode.index - self.offset ==> #[trigger] write_defined(
                    op,
                    reads.1 as int,
                    NUM_CELLS as int,
                ),
        ensures
            r.1.prev_data == reads.0.0,
            r.1.read_data == reads.0.1,
            r.1.shift_amount == reads.1,
            r.1.local_opcode == instruction.opcode.index - self.offset,
            forall|op: Rv32LoadStoreOpcode| #[trigger]
                r.1.is_of(op) ==> r.0@ == write_cells(
                    op,
                    reads.0.1@,
                    reads.0.0@,
                    reads.1 as int,
                ),
            *final(pc) == (*old(pc) + DEFAULT_PC_STEP) % 0x1_0000_0000,
    {
        let local_opcode = Rv32LoadStoreOpcode::from_usize(
            instruction.opcode.local_opcode_idx(self.offset),
        );
        let ((prev_data, read_data), shift_amount) = reads;
        assert(write_defined(local_opcode, shift_amount as int, NUM_CELLS as int));
        let write_data = run_write_data(local_opcode, read_data, prev_data, shift_amount as usize);
        let record = LoadStoreCoreRecord {
            local_opcode: local_opcode.to_u8(),
            shift_amount,
            read_data,
            prev_data,
        };
        *pc = pc.wrapping_add(DEFAULT_PC_STEP);
        (write_data, record)
    }

    /// Fills a row from its record.
    pub fn fill_trace_row<F: PrimeField32>(&self, record: &LoadStoreCoreRecord<NUM_CELLS>) -> (r:
        LoadStoreCoreCols<F, NUM_CELLS>)
        requires
            2 < F::order(),
            record.local_opcode < 8,
            forall|op: Rv32LoadStoreOpcode| #[trigger]
                record.is_of(op) ==> write_defined(
                    op,
                    record.shift_amount as int,
                    NUM_CELLS as int,
                ),
            bytes_canonical(record.read_data@, F::order()),
            words_canonical(record.prev_data@, F::order()),
        ensures
            forall|op: InstructionOpcode|
                record.is_of(op.opcode()) && record.shift_amount == op.shift() ==> r.row().flags
                    == #[trigger] op.flags(),
            forall|op: Rv32LoadStoreOpcode| #[trigger]
                record.is_of(op) ==> ({
                    &&& r.row().write_data == word_vals(
                        write_cells(
                            op,
                            record.read_data@,
                            record.prev_data@,
                            record.shift_amount as int,
                        ),
                    )
                    &&& r.row().is_load == (if op.is_load() { 1int } else { 0 })
                }),
            r.row().is_valid == 1,
            r.row().read_data == byte_vals(record.read_data@),
            r.row().prev_data == word_vals(record.prev_data@),
    {
        let opcode = Rv32LoadStoreOpcode::from_usize(record.local_opcode as usize);
        let shift = record.shift_amount;
        assert(record.is_of(opcode));
        let write_data = run_write_data(
            opcode,
            record.read_data,
            record.prev_data,
            shift as usize,
        );
        proof {
            F::order_is_prime();
            lemma_write_canonical(
                opcode,
                record.read_data@,
                record.prev_data@,
                shift as int,
                F::order(),
            );
        }
        let is_load = match opcode {
            Rv32LoadStoreOpcode::LOADW | Rv32LoadStoreOpcode::LOADHU | Rv32LoadStoreOpcode::LOADBU =>
            true,
            _ => false,
        };
        let one = F::one();
        let two = F::from_canonical_u32(2);
        let mut flags = [F::zero(); 4];
        match opcode {
            Rv32LoadStoreOpcode::LOADW => {
                flags[0] = two;
            },
            Rv32LoadStoreOpcode::LOADHU => {
                if shift == 0 {
                    flags[1] = two;
                } else {
                    flags[2] = two;
                }
            },
            Rv32LoadStoreOpcode::LOADBU => {
                if shift == 0 {
                    flags[3] = two;
                } else if shift == 1 {
                    flags[0] = one;
                } else if shift == 2 {
                    flags[1] = one;
                } else {
                    flags[2] = one;
                }
            },
            Rv32LoadStoreOpcode::STOREW => {
                flags[3] = one;
            },
            Rv32LoadStoreOpcode::STOREH => {
                flags[0] = one;
                if shift == 0 {
                    flags[1] = one;
                } else {
                    flags[2] = one;
                }
            },
            _ => {
                if shift == 0 {
                    flags[0] = one;
                    flags[3] = one;
                } else if shift == 1 {
                    flags[1] = one;
                    flags[2] = one;
                } else if shift == 2 {
                    flags[1] = one;
                    flags[3] = one;
                } else {
                    flags[2] = one;
                    flags[3] = one;
                }
            },
        }
        let cols = LoadStoreCoreCols {
            flags,
            is_valid: one,
            is_load: F::from_bool(is_load),
            read_data: field_bytes(&record.read_data),
            prev_data: field_words(&record.prev_data),
            write_data: field_words(&write_data),
        };
        assert forall|op: InstructionOpcode|
            record.is_of(op.opcode()) && record.shift_amount == op.shift() implies cols.row().flags
            == #[trigger] op.flags() by {
            assert(op.opcode() == opcode);
            assert(cols.row().flags =~= op.flags());
        }
        cols
    }
}

/// What is written is canonical where the data that moves and what the target held are.
proof fn lemma_write_canonical(
    opcode: Rv32LoadStoreOpcode,
    read: Seq<u8>,
    prev: Seq<u32>,
    shift: int,
    p: int,
)
    requires
        write_defined(opcode, shift, read.len() as int),
        0 < p,
        read.len() == prev.len(),
        bytes_canonical(read, p),
        words_canonical(prev, p),
    ensures
        words_canonical(write_cells(opcode, read, prev, shift), p),
{
}

} // verus!
