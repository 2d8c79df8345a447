use openvm_circuit::air::AirBuilder;
use openvm_circuit::arch::error::ExecutionError;
use openvm_circuit::arch::execution_mode::e1::E1Ctx;
use openvm_circuit::arch::execution_mode::stats::MemOp;
use openvm_circuit::arch::segment::VmSegmentState;
use openvm_circuit::arch::vm::streams::Streams;
use openvm_circuit::field::baby_bear::BabyBear;
use openvm_circuit::field::PrimeField32;
use openvm_circuit::instructions::{Instruction, Rv32LoadStoreOpcode, VmOpcode};
use openvm_circuit::rv32im::loadstore::air::LoadStoreCoreAir;
use openvm_circuit::rv32im::loadstore::execute::LoadStorePreCompute;
use openvm_circuit::rv32im::loadstore::step::{LoadStoreCoreRecord, LoadStoreStep};
use openvm_circuit::rv32im::loadstore::write_data::run_write_data;
use openvm_circuit::system::memory::AddressMap;
use openvm_circuit::system::online::GuestMemory;
use rand::SeedableRng;

const OFFSET: usize = 0x210;

fn fe(n: u32) -> BabyBear {
    BabyBear::from_canonical_u32(n)
}

/// `a`, `b`, `c`, `e`, `f` and `g`; `d` is the address space of registers.
fn instruction(index: usize, operands: [u32; 6]) -> Instruction<BabyBear> {
    let [a, b, c, e, f, g] = operands;
    Instruction {
        opcode: VmOpcode { index: OFFSET + index },
        a: fe(a),
        b: fe(b),
        c: fe(c),
        d: fe(1),
        e: fe(e),
        f: fe(f),
        g: fe(g),
    }
}

fn state() -> VmSegmentState<BabyBear, E1Ctx> {
    let mut memory = AddressMap::new(&vec![0, 64, 64, 0, 16]);
    memory.write::<u8, 4>(2, 16, [10, 20, 30, 40]);
    memory.write::<u8, 4>(1, 4, 16u32.to_le_bytes());
    memory.write::<u8, 4>(1, 8, [1, 2, 3, 4]);
    VmSegmentState::new(
        0,
        0,
        Some(GuestMemory::new(memory)),
        Streams::default(),
        rand::rngs::StdRng::seed_from_u64(0),
        E1Ctx::default(),
    )
}

fn run(inst: &Instruction<BabyBear>, s: &mut VmSegmentState<BabyBear, E1Ctx>) {
    let step = LoadStoreStep::<4>::new(OFFSET);
    let mut data = LoadStorePreCompute { imm_extended: 0, a: 0, b: 0, e: 0 };
    let func = step.pre_compute_e1(s.pc, inst, &mut data).unwrap();
    func.call_e1(&data, s);
}

#[test]
fn written_cells() {
    let (read, prev) = ([1, 2, 3, 4], [10, 11, 12, 13]);
    let write = |op, shift| run_write_data::<4>(op, read, prev, shift);
    assert_eq!(write(Rv32LoadStoreOpcode::LOADW, 0), [1, 2, 3, 4]);
    assert_eq!(write(Rv32LoadStoreOpcode::LOADHU, 0), [1, 2, 0, 0]);
    assert_eq!(write(Rv32LoadStoreOpcode::LOADHU, 2), [3, 4, 0, 0]);
    assert_eq!(write(Rv32LoadStoreOpcode::LOADBU, 0), [1, 0, 0, 0]);
    assert_eq!(write(Rv32LoadStoreOpcode::LOADBU, 3), [4, 0, 0, 0]);
    assert_eq!(write(Rv32LoadStoreOpcode::STOREW, 0), [1, 2, 3, 4]);
    assert_eq!(write(Rv32LoadStoreOpcode::STOREH, 0), [1, 2, 12, 13]);
    assert_eq!(write(Rv32LoadStoreOpcode::STOREH, 2), [10, 11, 1, 2]);
    assert_eq!(write(Rv32LoadStoreOpcode::STOREB, 1), [10, 1, 12, 13]);
    assert_eq!(write(Rv32LoadStoreOpcode::STOREB, 3), [10, 11, 12, 1]);
}

#[test]
fn filled_accesses_satisfy_the_constraints() {
    let step = LoadStoreStep::<4>::new(OFFSET);
    let air = LoadStoreCoreAir::<4>::new(OFFSET);
    let cases = [
        (0u8, 0u8, true), (2, 0, true), (2, 2, true), (1, 0, true), (1, 1, true), (1, 2, true),
        (1, 3, true), (3, 0, false), (4, 0, false), (4, 2, false), (5, 0, false), (5, 1, false),
        (5, 2, false), (5, 3, false),
    ];
    for (local_opcode, shift_amount, is_load) in cases {
        let record = LoadStoreCoreRecord::<4> {
            local_opcode,
            shift_amount,
            read_data: [1, 2, 3, 4],
            prev_data: [10, 11, 12, 13],
        };
        let cols = step.fill_trace_row::<BabyBear>(&record);
        let mut builder = AirBuilder::new();
        let ctx = air.eval(&mut builder, &cols);
        assert!(builder.constraints.iter().all(|x| x.is_zero()));
        assert_eq!(ctx.instruction.opcode.as_canonical_u32(), 0x210 + local_opcode as u32);
        assert_eq!(ctx.instruction.is_load.as_canonical_u32(), is_load as u32);
        let (load, store) = if is_load { (shift_amount, 0) } else { (0, shift_amount) };
        assert_eq!(ctx.instruction.load_shift_amount.as_canonical_u32(), load as u32);
        assert_eq!(ctx.instruction.store_shift_amount.as_canonical_u32(), store as u32);
    }
}

#[test]
fn aligned_accesses_have_flags_of_their_own() {
    let step = LoadStoreStep::<4>::new(OFFSET);
    let cases = [
        (0u8, 0u8), (2, 0), (2, 2), (1, 0), (1, 1), (1, 2), (1, 3), (3, 0), (4, 0), (4, 2), (5, 0),
        (5, 1), (5, 2), (5, 3),
    ];
    let flags = |(local_opcode, shift_amount): (u8, u8)| {
        let record = LoadStoreCoreRecord::<4> {
            local_opcode,
            shift_amount,
            read_data: [0; 4],
            prev_data: [0; 4],
        };
        step.fill_trace_row::<BabyBear>(&record).flags.map(|x| x.as_canonical_u32())
    };
    assert_eq!(flags((2, 2)), [0, 0, 2, 0]);
    assert_eq!(flags((5, 1)), [0, 1, 1, 0]);
    for i in 0..cases.len() {
        for j in 0..i {
            assert_ne!(flags(cases[i]), flags(cases[j]));
        }
    }
}

#[test]
fn a_wrong_store_violates_a_constraint() {
    let step = LoadStoreStep::<4>::new(OFFSET);
    let record = LoadStoreCoreRecord::<4> {
        local_opcode: 5,
        shift_amount: 1,
        read_data: [1, 2, 3, 4],
        prev_data: [10, 11, 12, 13],
    };
    let mut cols = step.fill_trace_row::<BabyBear>(&record);
    cols.write_data[2] = BabyBear::zero();
    let mut builder = AirBuilder::new();
    LoadStoreCoreAir::<4>::new(OFFSET).eval(&mut builder, &cols);
    assert!(builder.constraints.iter().any(|x| !x.is_zero()));
}

#[test]
fn access_shape_and_names() {
    let air = LoadStoreCoreAir::<4>::new(OFFSET);
    assert_eq!(air.width(), 18);
    assert_eq!(air.start_offset(), OFFSET);
    let step = LoadStoreStep::<4>::new(OFFSET);
    assert_eq!(step.get_opcode_name(OFFSET), "LOADW");
    assert_eq!(step.get_opcode_name(OFFSET + 5), "STOREB");
}

#[test]
fn access_step_records() {
    let step = LoadStoreStep::<4>::new(OFFSET);
    let mut pc = 0;
    let inst = instruction(4, [0; 6]);
    let (written, record) =
        step.execute(&mut pc, &inst, (([10, 11, 12, 13], [1, 2, 3, 4]), 2));
    assert_eq!(written, [10, 11, 1, 2]);
    assert_eq!((record.local_opcode, record.shift_amount), (4, 2));
    assert_eq!((record.read_data, record.prev_data), ([1, 2, 3, 4], [10, 11, 12, 13]));
    assert_eq!(pc, 4);
}

#[test]
fn loads_a_byte() {
    let mut s = state();
    run(&instruction(1, [12, 4, 2, 2, 1, 0]), &mut s);
    assert_eq!(s.memory.read::<u8, 4>(1, 12), [30, 0, 0, 0]);
    assert_eq!((s.pc, s.instret), (4, 1));
    assert_eq!(s.ctx.loadstore_stats().get(1, 4, MemOp::Read), Some(1));
    assert_eq!(s.ctx.loadstore_stats().get(2, 16, MemOp::Read), Some(1));
    assert_eq!(s.ctx.stats().get(1, 12, MemOp::Write), Some(1));
}

#[test]
fn stores_with_a_negative_offset() {
    let mut s = state();
    s.memory.write::<u8, 4>(1, 4, 20u32.to_le_bytes());
    run(&instruction(5, [8, 4, 0xfffd, 2, 1, 1]), &mut s);
    assert_eq!(s.memory.read::<u8, 4>(2, 16), [10, 1, 30, 40]);
}

#[test]
fn a_read_gives_back_what_a_store_wrote() {
    let mut s = state();
    run(&instruction(3, [8, 4, 4, 2, 1, 0]), &mut s);
    run(&instruction(0, [12, 4, 4, 2, 1, 0]), &mut s);
    assert_eq!(s.memory.read::<u8, 4>(1, 12), [1, 2, 3, 4]);
    assert_eq!((s.pc, s.instret), (8, 2));
}

#[test]
fn a_disabled_load_writes_nothing() {
    let mut s = state();
    run(&instruction(0, [12, 4, 0, 2, 0, 0]), &mut s);
    assert_eq!(s.memory.read::<u8, 4>(1, 12), [0; 4]);
    assert_eq!((s.pc, s.instret), (4, 1));
}

#[test]
fn a_misaligned_half_word_fails() {
    let mut s = state();
    s.pc = 64;
    run(&instruction(2, [12, 4, 1, 2, 1, 0]), &mut s);
    assert_eq!(s.exit_code, Err(ExecutionError::Fail { pc: 64 }));
    assert_eq!((s.pc, s.instret), (64, 0));
    let mut s = state();
    (s.pc, s.instret) = (u32::MAX - 3, u64::MAX);
    run(&instruction(2, [12, 4, 1, 2, 1, 0]), &mut s);
    assert_eq!(s.exit_code, Err(ExecutionError::Fail { pc: u32::MAX - 3 }));
    assert_eq!((s.pc, s.instret), (u32::MAX - 3, u64::MAX));
}

#[test]
fn stores_to_the_native_space() {
    let mut s = state();
    s.memory.write::<u8, 4>(1, 4, 8u32.to_le_bytes());
    run(&instruction(3, [8, 4, 0, 4, 1, 0]), &mut s);
    let cells = s.memory.read::<BabyBear, 4>(4, 8);
    assert_eq!(cells.map(|x| x.as_canonical_u32()), [1, 2, 3, 4]);
}

#[test]
fn refuses_bad_accesses() {
    let step = LoadStoreStep::<4>::new(OFFSET);
    let mut data = LoadStorePreCompute { imm_extended: 0, a: 0, b: 0, e: 0 };
    let store_disabled = instruction(3, [8, 4, 0, 2, 0, 0]);
    let refused = step.pre_compute_e1(4, &store_disabled, &mut data);
    assert_eq!(refused.err(), Some(ExecutionError::InvalidInstruction(4)));
    let to_immediate = instruction(0, [8, 4, 0, 0, 1, 0]);
    let refused = step.pre_compute_e1(8, &to_immediate, &mut data);
    assert_eq!(refused.err(), Some(ExecutionError::InvalidInstruction(8)));
}
