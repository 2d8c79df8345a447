//! What a row of the load and store chip proves.
use crate::air::{array_vals, byte_vals, red_seq, AirBuilder, SendVals};
use crate::air_rows::{accepted, bytes_of, fresh, lemma_accepted};
use crate::field::number_theory::{finv, lemma_red_add, lemma_red_small, red};
use crate::field::PrimeField32;
use crate::instructions::{Instruction, Rv32LoadStoreOpcode};
use crate::rv32im::base_alu::rows::digits_below;
use crate::rv32im::loadstore::air::{LoadStoreAirContext, LoadStoreCoreAir};
use crate::rv32im::loadstore::columns::LoadStoreCoreCols;
use crate::rv32im::loadstore::laws::{
    instruction_of, law_loadstore_complete, law_loadstore_sound, tells,
};
use crate::rv32im::loadstore::step::{word_vals, LoadStoreCoreRecord, LoadStoreStep};
use crate::rv32im::loadstore::write_data::{run_write_data, write_cells};
use vstd::prelude::*;

verus! {

/// How many of `n` cells move: all for a word, half for a halfword, one for a byte.
pub open spec fn cells_moved(opcode: int, n: int) -> int {
    if opcode == 0 || opcode == 3 {
        n
    } else if opcode == 2 || opcode == 4 {
        n / 2
    } else {
        1
    }
}

/// Where an access may start in an aligned word: a word at its start, a halfword at its start or
/// middle, a byte anywhere.
pub open spec fn may_start(opcode: int, shift: int) -> bool {
    &&& 0 <= opcode <= 5
    &&& 0 <= shift <= 3
    &&& opcode == 0 || opcode == 3 ==> shift == 0
    &&& opcode == 2 || opcode == 4 ==> shift % 2 == 0
}

/// The cells `z` are those that a load or store leaves in its target: a load leaves the cells that
/// move, from `shift` on, and zeros above them; a store puts the lowest cells of what moves at
/// `shift`, and keeps the others of the target.
pub open spec fn leaves(
    opcode: int,
    shift: int,
    moving: Seq<int>,
    target: Seq<int>,
    z: Seq<int>,
    n: int,
) -> bool {
    let size = cells_moved(opcode, n);
    &&& opcode <= 2 ==> forall|i: int|
        0 <= i < n ==> #[trigger] z[i] == (if i < size {
            moving[shift + i]
        } else {
            0
        })
    &&& opcode > 2 ==> forall|i: int|
        0 <= i < n ==> #[trigger] z[i] == (if 0 <= i - shift < size {
            moving[i - shift]
        } else {
            target[i]
        })
}

proof fn lemma_leaves(opcode: Rv32LoadStoreOpcode, read: Seq<u8>, prev: Seq<u32>, shift: int)
    requires
        read.len() == prev.len(),
        read.len() >= 4,
        may_start(opcode.index(), shift),
    ensures
        leaves(
            opcode.index(),
            shift,
            byte_vals(read),
            word_vals(prev),
            word_vals(write_cells(opcode, read, prev, shift)),
            read.len() as int,
        ),
{
    let z = write_cells(opcode, read, prev, shift);
    let n = read.len() as int;
    assert forall|i: int| 0 <= i < n implies #[trigger] word_vals(z)[i] == z[i] as int by {}
    assert(z.len() == n);
}

/// The data that is written is what the load or store leaves.
pub proof fn law_run_write_data<const NUM_CELLS: usize>(
    opcode: Rv32LoadStoreOpcode,
    read_data: [u8; NUM_CELLS],
    prev_data: [u32; NUM_CELLS],
    shift: usize,
    r: [u32; NUM_CELLS],
)
    requires
        NUM_CELLS >= 4,
        may_start(opcode.index(), shift as int),
        call_ensures(run_write_data::<NUM_CELLS>, (opcode, read_data, prev_data, shift), r),
    ensures
        leaves(
            opcode.index(),
            shift as int,
            byte_vals(read_data@),
            word_vals(prev_data@),
            word_vals(r@),
            NUM_CELLS as int,
        ),
{
    lemma_leaves(opcode, read_data@, prev_data@, shift as int);
}

spec fn opcode_at(index: int) -> Rv32LoadStoreOpcode {
    if index == 0 {
        Rv32LoadStoreOpcode::LOADW
    } else if index == 1 {
        Rv32LoadStoreOpcode::LOADBU
    } else if index == 2 {
        Rv32LoadStoreOpcode::LOADHU
    } else if index == 3 {
        Rv32LoadStoreOpcode::STOREW
    } else if index == 4 {
        Rv32LoadStoreOpcode::STOREH
    } else {
        Rv32LoadStoreOpcode::STOREB
    }
}

/// Executing an instruction for the trace records what it was given, yields what the load or store
/// leaves, and moves the program counter on by four.
pub proof fn law_loadstore_step<F, const NUM_CELLS: usize>(
    step: LoadStoreStep<NUM_CELLS>,
    pc: &mut u32,
    instruction: Instruction<F>,
    reads: (([u32; NUM_CELLS], [u8; NUM_CELLS]), u8),
    r: ([u32; NUM_CELLS], LoadStoreCoreRecord<NUM_CELLS>),
)
    requires
        NUM_CELLS >= 4,
        may_start(instruction.opcode.index - step.offset, reads.1 as int),
        call_ensures(
            LoadStoreStep::<NUM_CELLS>::execute::<F>,
            (&step, pc, &instruction, reads),
            r,
        ),
    ensures
        leaves(
            instruction.opcode.index - step.offset,
            reads.1 as int,
            byte_vals(reads.0.1@),
            word_vals(reads.0.0@),
            word_vals(r.0@),
            NUM_CELLS as int,
        ),
        r.1.prev_data == reads.0.0,
        r.1.read_data == reads.0.1,
        r.1.shift_amount == reads.1,
        r.1.local_opcode == instruction.opcode.index - step.offset,
        *final(pc) == (*old(pc) + 4) % 0x1_0000_0000,
{
    let op = opcode_at(instruction.opcode.index - step.offset);
    assert(r.1.is_of(op));
    lemma_leaves(op, reads.0.1@, reads.0.0@, reads.1 as int);
}

/// What a row tells the adapter: an opcode, a shift, which is that of a load or that of a store,
/// and whether it is a load.
pub open spec fn shows<F: PrimeField32>(
    ctx: LoadStoreAirContext<F, 4>,
    opcode: int,
    shift: int,
    offset: int,
) -> bool {
    &&& ctx.instruction.is_valid.val() == 1
    &&& ctx.instruction.opcode.val() == offset + opcode
    &&& ctx.instruction.is_load.val() == (if opcode <= 2 {
        1int
    } else {
        0
    })
    &&& ctx.instruction.load_shift_amount.val() == (if opcode <= 2 {
        shift
    } else {
        0
    })
    &&& ctx.instruction.store_shift_amount.val() == (if opcode <= 2 {
        0
    } else {
        shift
    })
    &&& ctx.to_pc is None
}

proof fn lemma_offset(local: int, index: int, offset: int, p: int)
    requires
        red(local, p) == index,
        0 <= index,
        0 <= offset,
        index + offset < p,
    ensures
        red(local + offset, p) == index + offset,
{
    lemma_red_add(local, offset, p);
    lemma_red_small(offset, p);
    lemma_red_small(index + offset, p);
}

/// An accepted row that is valid shows the adapter an opcode of the chip with a shift at which it
/// may start, and as cells written those that this load or store leaves.
pub proof fn law_loadstore_row_proves<F: PrimeField32>(
    air: LoadStoreCoreAir<4>,
    builder: &mut AirBuilder<F>,
    cols: LoadStoreCoreCols<F, 4>,
    ctx: LoadStoreAirContext<F, 4>,
) -> (r: (int, int))
    requires
        F::order() > 8,
        air.offset + 5 < F::order(),
        fresh(*old(builder)),
        call_ensures(LoadStoreCoreAir::<4>::eval::<F>, (&air, builder, &cols), ctx),
        accepted(*final(builder), 256),
        ctx.instruction.is_valid.val() != 0,
        digits_below(array_vals(ctx.reads.1), 256, 4),
    ensures
        may_start(r.0, r.1),
        shows(ctx, r.0, r.1, air.offset as int),
        leaves(
            r.0,
            r.1,
            array_vals(ctx.reads.1),
            array_vals(ctx.reads.0),
            array_vals(ctx.writes[0]),
            4,
        ),
{
    let p = F::order();
    F::order_is_prime();
    let row = cols.row();
    let read = bytes_of(row.read_data);
    assert(row.read_data =~= byte_vals(read));
    let prev = row.prev_data.map_values(|x: int| x as u32);
    assert(row.prev_data =~= word_vals(prev)) by {
        assert forall|i: int| 0 <= i < 4 implies row.prev_data[i] == word_vals(prev)[i] by {
            cols.prev_data[i].val_is_canonical();
        }
    }
    let constraints = row.constraints(finv(p, 2), 4);
    assert(final(builder).constraint_vals() =~= red_seq(constraints, p));
    assert(final(builder).send_vals() =~= crate::air::red_sends(Seq::<SendVals>::empty(), p));
    lemma_accepted(*final(builder), constraints, Seq::<SendVals>::empty(), 256);
    lemma_canonical(cols);
    let op = law_loadstore_sound(row, read, prev, p);
    let index = op.opcode().index();
    lemma_offset(row.local_opcode(finv(p, 2)), index, air.offset as int, p);
    lemma_leaves(op.opcode(), read, prev, op.shift());
    (index, op.shift())
}

proof fn lemma_canonical<F: PrimeField32>(cols: LoadStoreCoreCols<F, 4>)
    ensures
        cols.row().canonical(4, F::order()),
{
    let p = F::order();
    let row = cols.row();
    assert forall|i: int| 0 <= i < 4 implies 0 <= #[trigger] row.flags[i] < p by {
        cols.flags[i].val_is_canonical();
    }
    assert forall|i: int| 0 <= i < 4 implies 0 <= #[trigger] row.write_data[i] < p by {
        cols.write_data[i].val_is_canonical();
    }
    assert forall|i: int| 0 <= i < 4 implies 0 <= #[trigger] row.read_data[i] < p by {
        cols.read_data[i].val_is_canonical();
    }
    assert forall|i: int| 0 <= i < 4 implies 0 <= #[trigger] row.prev_data[i] < p by {
        cols.prev_data[i].val_is_canonical();
    }
    cols.is_valid.val_is_canonical();
    cols.is_load.val_is_canonical();
}

/// A row that is filled from a record is accepted and valid, and shows the adapter the opcode, the
/// shift and the data of the record.
pub proof fn law_loadstore_filled_row_is_accepted<F: PrimeField32>(
    step: LoadStoreStep<4>,
    record: LoadStoreCoreRecord<4>,
    cols: LoadStoreCoreCols<F, 4>,
    air: LoadStoreCoreAir<4>,
    builder: &mut AirBuilder<F>,
    ctx: LoadStoreAirContext<F, 4>,
)
    requires
        F::order() > 8,
        air.offset + 5 < F::order(),
        may_start(record.local_opcode as int, record.shift_amount as int),
        call_ensures(LoadStoreStep::<4>::fill_trace_row::<F>, (&step, &record), cols),
        fresh(*old(builder)),
        call_ensures(LoadStoreCoreAir::<4>::eval::<F>, (&air, builder, &cols), ctx),
    ensures
        accepted(*final(builder), 256),
        shows(ctx, record.local_opcode as int, record.shift_amount as int, air.offset as int),
        array_vals(ctx.reads.1) == byte_vals(record.read_data@),
        array_vals(ctx.reads.0) == word_vals(record.prev_data@),
{
    let p = F::order();
    F::order_is_prime();
    let row = cols.row();
    let opcode = opcode_at(record.local_opcode as int);
    assert(record.is_of(opcode));
    let op = instruction_of(opcode, record.shift_amount as int);
    assert(op.opcode() == opcode && op.shift() == record.shift_amount);
    assert(row.flags == op.flags());
    assert(row.selects(op));
    let (read, prev) = (record.read_data@, record.prev_data@);
    law_loadstore_complete(row, op, read, prev, p);
    let constraints = row.constraints(finv(p, 2), 4);
    assert(final(builder).constraint_vals() =~= red_seq(constraints, p));
    assert(final(builder).send_vals() =~= crate::air::red_sends(Seq::<SendVals>::empty(), p));
    lemma_accepted(*final(builder), constraints, Seq::<SendVals>::empty(), 256);
    lemma_canonical(cols);
    let same = law_loadstore_sound(row, read, prev, p);
    assert(tells(row, 0, op.opcode(), op.shift(), p));
    lemma_offset(
        row.local_opcode(finv(p, 2)),
        opcode.index(),
        air.offset as int,
        p,
    );
}

} // verus!
