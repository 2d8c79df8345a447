//! What a load or store does to registers and memory.
use crate::arch::error::ExecutionError;
use crate::arch::execution_mode::{after_all, E1ExecutionCtx, E2ExecutionCtx, E2PreCompute};
use crate::arch::segment::VmSegmentState;
use crate::field::PrimeField32;
use crate::instructions::{Instruction, Rv32LoadStoreOpcode};
use crate::rv32im::loadstore::execute::{
    chosen, operands_valid, pre_computed, LoadStoreFunc, LoadStorePreCompute,
};
use crate::rv32im::loadstore::step::LoadStoreStep;
use crate::system::words::{differ_only_at, lemma_number_read, number_at, register_at, same_word};
use vstd::prelude::*;

verus! {

/// The instruction was pre-computed and executed, and took the state from `before` to `after`.
pub open spec fn ran<F: PrimeField32, CTX>(
    inst: &Instruction<F>,
    func: LoadStoreFunc,
    data: LoadStorePreCompute,
    before: &VmSegmentState<F, CTX>,
    after: &VmSegmentState<F, CTX>,
) -> bool {
    &&& operands_valid(inst)
    &&& chosen(inst, func)
    &&& pre_computed(inst, data)
    &&& data.executed(func.opcode, func.enabled, before, after)
}

/// Which of the loads and stores the instruction is: a load of a word, a byte or a halfword, or a
/// store of a word, a halfword or a byte.
pub open spec fn opcode_of<F: PrimeField32>(inst: &Instruction<F>) -> int {
    inst.opcode.index - 0x210
}

pub open spec fn loads<F: PrimeField32>(inst: &Instruction<F>) -> bool {
    opcode_of(inst) <= 2
}

/// The cells that move.
pub open spec fn cells_moved<F: PrimeField32>(inst: &Instruction<F>) -> int {
    if opcode_of(inst) == 0 || opcode_of(inst) == 3 {
        4
    } else if opcode_of(inst) == 2 || opcode_of(inst) == 4 {
        2
    } else {
        1
    }
}

/// The register of the data.
pub open spec fn register<F: PrimeField32>(inst: &Instruction<F>) -> int {
    inst.a.val() % 0x100
}

/// The register of the base pointer.
pub open spec fn base<F: PrimeField32>(inst: &Instruction<F>) -> int {
    inst.b.val() % 0x100
}

/// The address space that is loaded from or stored to.
pub open spec fn space<F: PrimeField32>(inst: &Instruction<F>) -> int {
    inst.e.val() % 0x100
}

/// The address in 32 bits: the base register plus the offset, a number of 16 bits less `2^16` if
/// its sign is set.
pub open spec fn is_address<F: PrimeField32>(
    inst: &Instruction<F>,
    mem: Seq<Seq<u32>>,
    address: int,
) -> bool {
    &&& 0 <= address < 0x1_0000_0000
    &&& same_word(
        address,
        number_at(mem[1], base(inst)) + inst.c.val() - 0x1_0000 * inst.g.val(),
    )
}

/// The registers exist, and so do the cells at the address.
pub open spec fn operands_exist<F: PrimeField32>(
    inst: &Instruction<F>,
    mem: Seq<Seq<u32>>,
    address: int,
) -> bool {
    &&& register_at(mem, base(inst))
    &&& register_at(mem, register(inst))
    &&& space(inst) < mem.len()
    &&& address / 4 * 4 + 4 <= mem[space(inst)].len()
    &&& loads(inst) ==> forall|i: int|
        0 <= i < mem[space(inst)].len() ==> #[trigger] mem[space(inst)][i] <= 255
}

/// A halfword must start at an even address.
pub open spec fn address_allowed<F: PrimeField32>(inst: &Instruction<F>, address: int) -> bool {
    cells_moved(inst) == 2 ==> address % 2 == 0
}

/// The cells that are moved start at the address; those of a word start at the last multiple of
/// four up to it.
pub open spec fn start<F: PrimeField32>(inst: &Instruction<F>, address: int) -> int {
    if cells_moved(inst) == 4 {
        address / 4 * 4
    } else {
        address
    }
}

/// The pointer that execution computes is the address.
proof fn lemma_address<F: PrimeField32, CTX>(
    inst: &Instruction<F>,
    func: LoadStoreFunc,
    data: LoadStorePreCompute,
    before: &VmSegmentState<F, CTX>,
    after: &VmSegmentState<F, CTX>,
    address: int,
)
    requires
        ran(inst, func, data, before, after),
        is_address(inst, before.memory@, address),
        register_at(before.memory@, base(inst)),
    ensures
        data.ptr(before.memory@) == address,
        data.shift(before.memory@) == address % 4,
        data.aligned(before.memory@) == address / 4 * 4,
{
    lemma_number_read(before.memory@, data.b as u32);
    inst.g.val_is_canonical();
    inst.c.val_is_canonical();
}

/// A load that writes leaves in the register the cells at the address, as many as it moves, and
/// zeros above them; no other cell changes. A load that does not write changes no cell.
pub proof fn law_load<F: PrimeField32, CTX>(
    inst: &Instruction<F>,
    func: LoadStoreFunc,
    data: LoadStorePreCompute,
    before: &VmSegmentState<F, CTX>,
    after: &VmSegmentState<F, CTX>,
    address: int,
)
    requires
        ran(inst, func, data, before, after),
        loads(inst),
        is_address(inst, before.memory@, address),
        operands_exist(inst, before.memory@, address),
        address_allowed(inst, address),
    ensures
        inst.f.val() != 0 ==> {
            &&& forall|i: int|
                0 <= i < cells_moved(inst) ==> #[trigger] after.memory@[1][register(inst) + i]
                    == before.memory@[space(inst)][start(inst, address) + i]
            &&& forall|i: int|
                cells_moved(inst) <= i < 4 ==> #[trigger] after.memory@[1][register(inst) + i] == 0
            &&& differ_only_at(before.memory@, after.memory@, 1, register(inst), 4)
        },
        inst.f.val() == 0 ==> after.memory@ == before.memory@,
{
    lemma_address(inst, func, data, before, after, address);
    let mem = before.memory@;
    let at = address / 4 * 4;
    let (a, s) = (register(inst), space(inst));
    let cells = data.data(func.opcode, mem);
    if inst.f.val() != 0 {
        assert(mem[s][at + 0] <= 255);
        assert(mem[s][at + 1] <= 255);
        assert(mem[s][at + 2] <= 255);
        assert(mem[s][at + 3] <= 255);
        assert(cells.len() == 4);
        assert forall|i: int| 0 <= i < 4 implies #[trigger] after.memory@[1][a + i] == cells[i] by {}
    }
}

/// A store copies the lowest cells of the register, as many as it moves, to the address; no other
/// cell of any address space changes.
pub proof fn law_store<F: PrimeField32, CTX>(
    inst: &Instruction<F>,
    func: LoadStoreFunc,
    data: LoadStorePreCompute,
    before: &VmSegmentState<F, CTX>,
    after: &VmSegmentState<F, CTX>,
    address: int,
)
    requires
        ran(inst, func, data, before, after),
        !loads(inst),
        is_address(inst, before.memory@, address),
        operands_exist(inst, before.memory@, address),
        address_allowed(inst, address),
    ensures
        forall|i: int|
            0 <= i < cells_moved(inst) ==> #[trigger] after.memory@[space(inst)][start(
                inst,
                address,
            ) + i] == before.memory@[1][register(inst) + i],
        differ_only_at(
            before.memory@,
            after.memory@,
            space(inst),
            start(inst, address),
            cells_moved(inst),
        ),
{
    lemma_address(inst, func, data, before, after, address);
    let mem = before.memory@;
    let at = address / 4 * 4;
    let (a, s) = (register(inst), space(inst));
    let cells = data.data(func.opcode, mem);
    assert(func.enabled) by {
        assert(func.opcode.is_store());
    }
    assert(mem[1][a + 0] <= 255);
    assert(mem[1][a + 1] <= 255);
    assert(mem[1][a + 2] <= 255);
    assert(mem[1][a + 3] <= 255);
    assert(cells.len() == 4);
    assert forall|i: int| at <= i < at + 4 implies #[trigger] after.memory@[s][i] == cells[i
        - at] by {}
}

/// The instruction is one of six; its base is a register and its address space is not that of
/// immediates; a store is always enabled.
pub proof fn law_loadstore_operands<F: PrimeField32, CTX>(
    inst: &Instruction<F>,
    func: LoadStoreFunc,
    data: LoadStorePreCompute,
    before: &VmSegmentState<F, CTX>,
    after: &VmSegmentState<F, CTX>,
)
    requires
        ran(inst, func, data, before, after),
    ensures
        0 <= opcode_of(inst) <= 5,
        inst.d.val() == 1,
        inst.e.val() != 0,
        !loads(inst) ==> inst.f.val() != 0,
        func.is_native_store == (inst.e.val() == 4),
{
    if !loads(inst) {
        assert(func.opcode.is_store());
    }
}

/// A halfword at an odd address fails the program where it is, and changes nothing else. Every
/// other load or store moves the program counter on by four and counts the instruction.
pub proof fn law_loadstore_effects<F: PrimeField32, CTX>(
    inst: &Instruction<F>,
    func: LoadStoreFunc,
    data: LoadStorePreCompute,
    before: &VmSegmentState<F, CTX>,
    after: &VmSegmentState<F, CTX>,
    address: int,
)
    requires
        ran(inst, func, data, before, after),
        is_address(inst, before.memory@, address),
        operands_exist(inst, before.memory@, address),
    ensures
        address_allowed(inst, address) ==> {
            &&& after.pc == before.pc + 4
            &&& after.instret == before.instret + 1
            &&& after.exit_code == before.exit_code
        },
        !address_allowed(inst, address) ==> {
            &&& after.memory@ == before.memory@
            &&& after.pc == before.pc
            &&& after.instret == before.instret
            &&& after.exit_code == Err::<Option<u32>, ExecutionError>(
                ExecutionError::Fail { pc: before.pc },
            )
        },
        after.streams == before.streams,
        after.rng == before.rng,
        after.imm_cnt == before.imm_cnt,
{
    lemma_address(inst, func, data, before, after, address);
}

/// What is accessed: the register of the base, then the aligned word at the address for a load or
/// the register of the data for a store, and then, if anything is written, the other of the two.
pub proof fn law_loadstore_accesses<F: PrimeField32, CTX>(
    inst: &Instruction<F>,
    func: LoadStoreFunc,
    data: LoadStorePreCompute,
    before: &VmSegmentState<F, CTX>,
    after: &VmSegmentState<F, CTX>,
    address: int,
)
    requires
        ran(inst, func, data, before, after),
        is_address(inst, before.memory@, address),
        operands_exist(inst, before.memory@, address),
    ensures
        ({
            let ops = data.accesses(func.opcode, func.enabled, before.memory@);
            let read = ops[1];
            let write = ops[2];
            let word = address / 4 * 4;
            &&& forall|i: int|
                0 <= i < ops.len() ==> (#[trigger] ops[i]).is_load_store && ops[i].size == 4 && (
                ops[i].is_write == (i == 2))
            &&& ops.len() == (if inst.f.val() != 0 && address_allowed(inst, address) {
                3int
            } else {
                2
            })
            &&& ops[0].address_space == 1 && ops[0].ptr == base(inst)
            &&& loads(inst) ==> {
                &&& read.address_space == space(inst) && read.ptr == word
                &&& ops.len() == 3 ==> write.address_space == 1 && write.ptr == register(inst)
            }
            &&& !loads(inst) ==> {
                &&& read.address_space == 1 && read.ptr == register(inst)
                &&& ops.len() == 3 ==> write.address_space == space(inst) && write.ptr == word
            }
        }),
{
    lemma_address(inst, func, data, before, after, address);
}

/// A load from the address of a store, of as many cells, gives back the lowest cells of the
/// register that was stored.
pub proof fn law_load_after_store<F: PrimeField32, CTX>(
    store: &Instruction<F>,
    store_func: LoadStoreFunc,
    store_data: LoadStorePreCompute,
    load: &Instruction<F>,
    load_func: LoadStoreFunc,
    load_data: LoadStorePreCompute,
    before: &VmSegmentState<F, CTX>,
    between: &VmSegmentState<F, CTX>,
    after: &VmSegmentState<F, CTX>,
    address: int,
)
    requires
        ran(store, store_func, store_data, before, between),
        ran(load, load_func, load_data, between, after),
        !loads(store),
        loads(load),
        load.f.val() != 0,
        cells_moved(store) == cells_moved(load),
        space(store) == space(load),
        is_address(store, before.memory@, address),
        is_address(load, between.memory@, address),
        operands_exist(store, before.memory@, address),
        operands_exist(load, between.memory@, address),
        address_allowed(store, address),
    ensures
        forall|i: int|
            0 <= i < cells_moved(store) ==> #[trigger] after.memory@[1][register(load) + i]
                == before.memory@[1][register(store) + i],
        forall|i: int|
            cells_moved(store) <= i < 4 ==> #[trigger] after.memory@[1][register(load) + i] == 0,
{
    law_store(store, store_func, store_data, before, between, address);
    law_load(load, load_func, load_data, between, after, address);
    assert forall|i: int| 0 <= i < cells_moved(store) implies #[trigger] after.memory@[1][register(
        load,
    ) + i] == before.memory@[1][register(store) + i] by {
        let at = start(store, address);
        assert(between.memory@[space(store)][at + i] == before.memory@[1][register(store) + i]);
    }
}


/// The opcodes of stores.
proof fn lemma_stores<F: PrimeField32>(inst: &Instruction<F>)
    ensures
        (exists|op: Rv32LoadStoreOpcode| op.index() == opcode_of(inst) && #[trigger] op.is_store())
            <==> 3 <= opcode_of(inst) <= 5,
{
    assert(Rv32LoadStoreOpcode::STOREW.is_store());
    assert(Rv32LoadStoreOpcode::STOREH.is_store());
    assert(Rv32LoadStoreOpcode::STOREB.is_store());
}

/// Pre-computing a load or store and calling the function that is chosen runs the instruction, and tells
/// the context of its accesses.
pub proof fn law_loadstore_runs_e1<F: PrimeField32, CTX: E1ExecutionCtx, const NUM_CELLS: usize>(
    step: LoadStoreStep<NUM_CELLS>,
    pc: u32,
    inst: Instruction<F>,
    func: LoadStoreFunc,
    data: &mut LoadStorePreCompute,
    state: &mut VmSegmentState<F, CTX>,
)
    requires
        call_ensures(
            LoadStoreStep::<NUM_CELLS>::pre_compute_e1::<F>,
            (&step, pc, &inst, data),
            Ok::<LoadStoreFunc, ExecutionError>(func),
        ),
        call_ensures(LoadStoreFunc::call_e1::<F, CTX>, (func, &*final(data), state), ()),
    ensures
        ran(&inst, func, *final(data), &*old(state), &*final(state)),
        final(state).ctx.ctx_view() == after_all::<CTX>(
            old(state).ctx.ctx_view(),
            final(data).accesses(func.opcode, func.enabled, old(state).memory@),
        ),
{
}

/// With the index of a chip it runs the same instruction; the context is told of one more row of
/// the chip first.
pub proof fn law_loadstore_runs_e2<F: PrimeField32, CTX: E2ExecutionCtx, const NUM_CELLS: usize>(
    step: LoadStoreStep<NUM_CELLS>,
    chip_idx: usize,
    pc: u32,
    inst: Instruction<F>,
    func: LoadStoreFunc,
    data: &mut E2PreCompute<LoadStorePreCompute>,
    state: &mut VmSegmentState<F, CTX>,
)
    requires
        chip_idx <= u32::MAX,
        call_ensures(
            LoadStoreStep::<NUM_CELLS>::pre_compute_e2::<F>,
            (&step, chip_idx, pc, &inst, data),
            Ok::<LoadStoreFunc, ExecutionError>(func),
        ),
        call_ensures(LoadStoreFunc::call_e2::<F, CTX>, (func, &*final(data), state), ()),
    ensures
        ran(&inst, func, final(data).data, &*old(state), &*final(state)),
        final(state).ctx.ctx_view() == after_all::<CTX>(
            CTX::after_height(old(state).ctx.ctx_view(), chip_idx, 1),
            final(data).data.accesses(func.opcode, func.enabled, old(state).memory@),
        ),
{
}

/// An instruction is refused exactly if its base is no register, its address space is that of
/// immediates, or it is a store that is not enabled.
pub proof fn law_loadstore_refused<F: PrimeField32, const NUM_CELLS: usize>(
    step: LoadStoreStep<NUM_CELLS>,
    pc: u32,
    inst: Instruction<F>,
    data: &mut LoadStorePreCompute,
    r: Result<LoadStoreFunc, ExecutionError>,
)
    requires
        call_ensures(
            LoadStoreStep::<NUM_CELLS>::pre_compute_e1::<F>,
            (&step, pc, &inst, data),
            r,
        ),
    ensures
        r is Err <==> (inst.d.val() != 1 || inst.e.val() == 0 || (
        3 <= opcode_of(&inst) <= 5 && inst.f.val() == 0)),
        r matches Err(e) ==> e == ExecutionError::InvalidInstruction(pc) && *final(data) == *old(
            data,
        ),
{
    lemma_stores(&inst);
}

/// The same holds with the index of a chip.
pub proof fn law_loadstore_refused_e2<F: PrimeField32, const NUM_CELLS: usize>(
    step: LoadStoreStep<NUM_CELLS>,
    chip_idx: usize,
    pc: u32,
    inst: Instruction<F>,
    data: &mut E2PreCompute<LoadStorePreCompute>,
    r: Result<LoadStoreFunc, ExecutionError>,
)
    requires
        call_ensures(
            LoadStoreStep::<NUM_CELLS>::pre_compute_e2::<F>,
            (&step, chip_idx, pc, &inst, data),
            r,
        ),
    ensures
        r is Err <==> (inst.d.val() != 1 || inst.e.val() == 0 || (
        3 <= opcode_of(&inst) <= 5 && inst.f.val() == 0)),
        r matches Err(e) ==> e == ExecutionError::InvalidInstruction(pc) && final(data).data == old(
            data,
        ).data,
{
    lemma_stores(&inst);
}

} // verus!
