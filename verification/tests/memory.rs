use openvm_circuit::arch::execution_mode::e1::E1Ctx;
use openvm_circuit::arch::execution_mode::stats::MemOp;
use openvm_circuit::arch::execution_mode::E1ExecutionCtx;
use openvm_circuit::arch::segment::{VmSegmentState, VmStateMut};
use openvm_circuit::arch::vm::config::MemoryConfig;
use openvm_circuit::arch::vm::exe::{Program, VmExe};
use openvm_circuit::arch::vm::state::{create_initial_state, create_memory_image, VmState};
use openvm_circuit::arch::vm::streams::{ByteStore, KvStore, Streams};
use openvm_circuit::field::baby_bear::BabyBear;
use openvm_circuit::field::PrimeField32;
use openvm_circuit::system::memory::{AddressMap, SparseByte, SparseMemoryImage};
use openvm_circuit::system::native_adapter::util::{
    memory_read_native, memory_read_native_from_state, memory_read_or_imm_native,
    memory_read_or_imm_native_from_state, memory_write_native, memory_write_native_from_state,
    timed_read_native, timed_write_native, tracing_read_native, tracing_read_or_imm_native,
    tracing_write_native, tracing_write_native_inplace, MemoryBaseAuxCols, MemoryWriteAuxCols,
};
use openvm_circuit::system::online::{GuestMemory, TracingMemory};
use rand::rngs::StdRng;
use rand::{RngCore, SeedableRng};
use std::collections::VecDeque;

fn fe(n: u32) -> BabyBear {
    BabyBear::from_canonical_u32(n)
}

fn native(cells: &[BabyBear]) -> Vec<u32> {
    cells.iter().map(|x| x.as_canonical_u32()).collect()
}

fn spaces() -> AddressMap {
    AddressMap::new(&vec![0, 16, 16, 0, 16])
}

fn sparse() -> SparseMemoryImage {
    SparseMemoryImage {
        bytes: vec![
            SparseByte { addr_space: 1, index: 3, value: 200 },
            SparseByte { addr_space: 4, index: 5, value: 7 },
        ],
    }
}

#[test]
fn reads_give_back_writes() {
    let mut memory = spaces();
    memory.write::<u8, 3>(2, 4, [7, 8, 9]);
    assert_eq!(memory.read::<u8, 3>(2, 4), [7, 8, 9]);
    assert_eq!(memory.read::<u8, 4>(2, 3), [0, 7, 8, 9]);
    assert_eq!(memory.get_slice::<u8>(2, 5, 3), vec![8, 9, 0]);
    memory.write::<BabyBear, 2>(4, 14, [fe(1), fe(2_000_000_000)]);
    assert_eq!(native(&memory.read::<BabyBear, 2>(4, 14)), vec![1, 2_000_000_000]);
}

#[test]
fn sparse_images_set_bytes() {
    let config = MemoryConfig { addr_space_sizes: vec![0, 8, 8, 0, 4] };
    let memory = create_memory_image(&config, &sparse());
    assert_eq!(memory.mem[1], vec![0, 0, 0, 200, 0, 0, 0, 0]);
    assert_eq!(memory.mem[2], vec![0; 8]);
    assert_eq!(memory.mem[4], vec![0, 0x700, 0, 0]);
    assert_eq!(memory.clone().mem, memory.mem);
}

#[test]
fn programs_start_in_their_initial_state() {
    let config = MemoryConfig { addr_space_sizes: vec![0, 8, 8, 0, 4] };
    let exe = VmExe::<BabyBear> { program: Program::empty(), pc_start: 12, init_memory: sparse() };
    let input = Streams::from(vec![vec![fe(3)]]);
    let mut state = create_initial_state(&config, &exe, input, 9);
    assert_eq!((state.instret, state.pc), (0, 12));
    assert_eq!(state.memory.mem[1][3], 200);
    assert_eq!(native(&state.input.input_stream[0]), vec![3]);
    assert_eq!(state.rng.next_u64(), StdRng::seed_from_u64(9).next_u64());
}

#[test]
fn seeds_determine_the_generator() {
    let state = |seed| VmState::<BabyBear>::new(5, 4, spaces(), Streams::default(), seed);
    let (mut x, mut y, mut z) = (state(1), state(1), state(2));
    let first = x.rng.next_u64();
    assert_eq!(first, y.rng.next_u64());
    assert_ne!(first, z.rng.next_u64());
    assert_eq!(first, StdRng::seed_from_u64(1).next_u64());
    assert_eq!((x.instret, x.pc), (5, 4));
}

#[test]
fn streams_start_without_hints() {
    let streams = Streams::from(vec![vec![1u32, 2], vec![3]]);
    assert_eq!(streams.input_stream, VecDeque::from(vec![vec![1, 2], vec![3]]));
    assert!(streams.hint_stream.is_empty() && streams.hint_space.is_empty());
    assert!(streams.kv_store.get(&[1]).is_none());
    let other = Streams::from(VecDeque::from(vec![vec![9u32]]));
    assert_eq!(other.input_stream[0], vec![9]);
    assert!(Streams::<u32>::default().input_stream.is_empty());
}

#[test]
fn stores_keep_the_last_value() {
    let mut store = ByteStore::new();
    assert!(store.get(&[]).is_none());
    store.insert(vec![1, 2], vec![3]);
    store.insert(vec![4], vec![]);
    store.insert(vec![1, 2], vec![5, 6]);
    assert_eq!(store.get(&[1, 2]), Some(&[5u8, 6][..]));
    assert_eq!(store.get(&[4]), Some(&[][..]));
    assert!(store.get(&[1]).is_none());
}

#[test]
fn native_access_of_guest_memory() {
    let mut memory = GuestMemory::new(spaces());
    memory_write_native(&mut memory, 3, [fe(5), fe(6)]);
    assert_eq!(native(&memory_read_native::<BabyBear, 2>(&memory, 3)), vec![5, 6]);
    assert_eq!(memory_read_or_imm_native(&memory, 4, fe(4)).as_canonical_u32(), 6);
    assert_eq!(memory_read_or_imm_native(&memory, 0, fe(4)).as_canonical_u32(), 4);
}

#[test]
fn native_access_of_a_state_is_counted() {
    let mut pc = 0;
    let mut memory = GuestMemory::new(spaces());
    let mut streams: Streams<BabyBear> = Streams::default();
    let mut rng = StdRng::seed_from_u64(0);
    let mut ctx = E1Ctx::default();
    {
        let mut state = VmStateMut {
            pc: &mut pc,
            memory: &mut memory,
            streams: &mut streams,
            rng: &mut rng,
            ctx: &mut ctx,
        };
        memory_write_native_from_state(&mut state, 7, [fe(8)]);
        let read = memory_read_native_from_state::<E1Ctx, BabyBear, 1>(&mut state, 7);
        assert_eq!(native(&read), vec![8]);
        let x = memory_read_or_imm_native_from_state(&mut state, 4, fe(7));
        assert_eq!(x.as_canonical_u32(), 8);
        let x = memory_read_or_imm_native_from_state(&mut state, 0, fe(7));
        assert_eq!(x.as_canonical_u32(), 7);
    }
    assert_eq!(ctx.stats().get(4, 7, MemOp::Write), Some(1));
    assert_eq!(ctx.stats().get(4, 7, MemOp::Read), Some(2));
}

#[test]
fn tracing_memory_keeps_times() {
    let mut memory = TracingMemory::new(spaces());
    assert_eq!(memory.timestamp, 1);
    let (time, previous) = timed_write_native(&mut memory, 2, [fe(9), fe(8)]);
    assert_eq!((time, native(&previous)), (0, vec![0, 0]));
    let (time, read) = timed_read_native::<BabyBear, 1>(&mut memory, 3);
    assert_eq!((time, native(&read)), (1, vec![8]));
    memory.increment_timestamp();
    assert_eq!(memory.timestamp, 4);
    let mut prev_timestamp = 99;
    let read = tracing_read_native::<BabyBear, 2>(&mut memory, 2, &mut prev_timestamp);
    assert_eq!((prev_timestamp, native(&read)), (2, vec![9, 8]));
    let mut prev_data = [fe(0)];
    tracing_write_native(&mut memory, 2, [fe(1)], &mut prev_timestamp, &mut prev_data);
    assert_eq!((prev_timestamp, native(&prev_data)), (4, vec![9]));
}

#[test]
fn tracing_writes_fill_columns() {
    let mut memory = TracingMemory::new(spaces());
    timed_write_native(&mut memory, 0, [fe(5)]);
    let mut cols = MemoryWriteAuxCols {
        base: MemoryBaseAuxCols { prev_timestamp: fe(0) },
        prev_data: [fe(0)],
    };
    tracing_write_native_inplace(&mut memory, 0, [fe(6)], &mut cols);
    assert_eq!(cols.base.prev_timestamp.as_canonical_u32(), 1);
    assert_eq!(native(&cols.prev_data), vec![5]);
}

#[test]
fn tracing_an_immediate_passes_time() {
    let mut memory = TracingMemory::new(spaces());
    let mut prev_timestamp = 0;
    let x = tracing_read_or_imm_native(&mut memory, 0, fe(3), &mut prev_timestamp);
    assert_eq!((x.as_canonical_u32(), prev_timestamp, memory.timestamp), (3, u32::MAX, 2));
    let x = tracing_read_or_imm_native(&mut memory, 4, fe(3), &mut prev_timestamp);
    assert_eq!((x.as_canonical_u32(), prev_timestamp, memory.timestamp), (0, 0, 3));
}

#[test]
fn segment_states_read_and_write() {
    let mut state: VmSegmentState<BabyBear, E1Ctx> = VmSegmentState::new(
        1,
        2,
        Some(GuestMemory::new(spaces())),
        Streams::default(),
        StdRng::seed_from_u64(0),
        E1Ctx::default(),
    );
    assert_eq!((state.instret, state.pc, state.exit_code), (1, 2, Ok(None)));
    state.vm_write::<u8, 2>(1, 4, &[3, 4]);
    state.vm_write_from_loadstore::<u8, 1>(1, 8, &[5]);
    assert_eq!(state.vm_read::<u8, 2>(1, 4), [3, 4]);
    assert_eq!(state.vm_read_from_loadstore::<u8, 1>(1, 8), [5]);
    assert_eq!(state.vm_read_slice::<u8>(1, 4, 2), vec![3, 4]);
    state.host_write::<u8, 1>(1, 4, &[6]);
    assert_eq!(state.host_read::<u8, 1>(1, 4), [6]);
    assert_eq!(state.host_read_slice::<u8>(1, 4, 2), vec![6, 4]);
    assert_eq!(state.ctx.stats().get(1, 4, MemOp::Read), Some(2));
    assert_eq!(state.ctx.stats().get(1, 4, MemOp::Write), Some(1));
    assert_eq!(state.ctx.loadstore_stats().get(1, 8, MemOp::Read), Some(1));
    assert_eq!(state.ctx.loadstore_stats().get(1, 4, MemOp::Read), None);
    let empty: VmSegmentState<BabyBear, E1Ctx> = VmSegmentState::new(
        0, 0, None, Streams::default(), StdRng::seed_from_u64(0), E1Ctx::default(),
    );
    assert!(empty.memory.memory.mem.is_empty());
}

#[test]
fn counts_are_those_of_the_operations() {
    let mut ctx = E1Ctx::new(None);
    let operations = [
        (1, 4, true, false), (1, 4, true, false), (1, 4, false, true), (2, 0, false, false),
        (2, 8, true, true), (4, 1, false, true), (4, 1, false, false),
    ];
    for (address_space, ptr, is_load_store, is_write) in operations {
        ctx.on_memory_operation(address_space, ptr, 4, is_load_store, is_write);
    }
    let all: u64 = ctx.stats().entries().iter().map(|e| e.1).sum();
    assert_eq!(all, 7);
    let load_stores: u64 = ctx.loadstore_stats().entries().iter().map(|e| e.1).sum();
    assert_eq!(load_stores, 3);
    assert_eq!(ctx.stats().total(1, None), Some(3));
    assert_eq!(ctx.stats().total(2, Some(MemOp::Write)), Some(1));
    assert_eq!(ctx.loadstore_stats().total(1, None), Some(2));
}
