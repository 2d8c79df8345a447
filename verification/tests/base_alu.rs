use openvm_circuit::air::{AirBuilder, LookupKind, LookupRequest};
use openvm_circuit::arch::error::ExecutionError;
use openvm_circuit::arch::execution_mode::e1::E1Ctx;
use openvm_circuit::arch::execution_mode::stats::MemOp;
use openvm_circuit::arch::execution_mode::E2PreCompute;
use openvm_circuit::arch::segment::VmSegmentState;
use openvm_circuit::arch::vm::streams::Streams;
use openvm_circuit::field::baby_bear::BabyBear;
use openvm_circuit::field::PrimeField32;
use openvm_circuit::instructions::{BaseAluOpcode, Instruction, VmOpcode};
use openvm_circuit::rv32im::base_alu::air::BaseAluCoreAir;
use openvm_circuit::rv32im::base_alu::arithmetic::{
    run_add, run_alu, run_and, run_or, run_subtract, run_xor,
};
use openvm_circuit::rv32im::base_alu::execute::BaseAluPreCompute;
use openvm_circuit::rv32im::base_alu::step::{BaseAluCoreRecord, BaseAluStep};
use openvm_circuit::system::memory::AddressMap;
use openvm_circuit::system::online::GuestMemory;
use rand::SeedableRng;

const OFFSET: usize = 0x200;

fn fe(n: u32) -> BabyBear {
    BabyBear::from_canonical_u32(n)
}

fn instruction(index: usize, a: u32, b: u32, c: u32, d: u32, e: u32) -> Instruction<BabyBear> {
    Instruction {
        opcode: VmOpcode { index },
        a: fe(a),
        b: fe(b),
        c: fe(c),
        d: fe(d),
        e: fe(e),
        f: fe(0),
        g: fe(0),
    }
}

fn state(pc: u32) -> VmSegmentState<BabyBear, E1Ctx> {
    let memory = AddressMap::new(&vec![0, 256, 64, 0, 16]);
    VmSegmentState::new(
        0,
        pc,
        Some(GuestMemory::new(memory)),
        Streams::default(),
        rand::rngs::StdRng::seed_from_u64(0),
        E1Ctx::new(None),
    )
}

fn set_register(s: &mut VmSegmentState<BabyBear, E1Ctx>, ptr: u32, value: u32) {
    s.memory.write::<u8, 4>(1, ptr, value.to_le_bytes());
}

fn register(s: &VmSegmentState<BabyBear, E1Ctx>, ptr: u32) -> u32 {
    u32::from_le_bytes(s.memory.read::<u8, 4>(1, ptr))
}

#[test]
fn addition_carries_and_wraps() {
    assert_eq!(run_add::<4, 8>(&[255, 255, 0, 0], &[1, 0, 0, 0]), [0, 0, 1, 0]);
    assert_eq!(run_add::<4, 8>(&[255; 4], &[1, 0, 0, 0]), [0; 4]);
    assert_eq!(run_add::<2, 4>(&[15, 1], &[1, 0]), [0, 2]);
}

#[test]
fn subtraction_borrows_and_wraps() {
    assert_eq!(run_subtract::<4, 8>(&[0, 0, 1, 0], &[1, 0, 0, 0]), [255, 255, 0, 0]);
    assert_eq!(run_subtract::<4, 8>(&[0; 4], &[1, 0, 0, 0]), [255; 4]);
}

#[test]
fn bitwise_operations() {
    let (x, y) = ([0b1100, 255, 0, 1], [0b1010, 15, 7, 1]);
    assert_eq!(run_xor::<4>(&x, &y), [0b0110, 240, 7, 0]);
    assert_eq!(run_or::<4>(&x, &y), [0b1110, 255, 7, 1]);
    assert_eq!(run_and::<4>(&x, &y), [0b1000, 15, 0, 1]);
}

#[test]
fn limbs_agree_with_words() {
    let words = [0u32, 1, 255, 256, 0x8000_0000, 0xffff_ffff, 0x1234_5678];
    for x in words {
        for y in words {
            let (b, c) = (x.to_le_bytes(), y.to_le_bytes());
            let run = |op| u32::from_le_bytes(run_alu::<4, 8>(op, &b, &c));
            assert_eq!(run(BaseAluOpcode::ADD), x.wrapping_add(y));
            assert_eq!(run(BaseAluOpcode::SUB), x.wrapping_sub(y));
            assert_eq!(run(BaseAluOpcode::XOR), x ^ y);
            assert_eq!(run(BaseAluOpcode::OR), x | y);
            assert_eq!(run(BaseAluOpcode::AND), x & y);
        }
    }
}

#[test]
fn filled_rows_satisfy_the_constraints() {
    let step = BaseAluStep::<4, 8>::new(OFFSET);
    let air = BaseAluCoreAir::<4, 8>::new(OFFSET);
    for index in 0..5u8 {
        let record =
            BaseAluCoreRecord { b: [255, 0, 17, 200], c: [1, 255, 3, 99], local_opcode: index };
        let (cols, requests) = step.fill_trace_row::<BabyBear>(&record);
        let mut builder = AirBuilder::new();
        let ctx = air.eval(&mut builder, &cols);
        assert!(builder.constraints.iter().all(|x| x.is_zero()));
        assert_eq!(ctx.opcode.as_canonical_u32(), 0x200 + index as u32);
        assert_eq!(ctx.is_valid.as_canonical_u32(), 1);
        assert!(ctx.to_pc.is_none());
        assert_eq!(requests.len(), 4);
        assert_eq!(builder.sends.len(), 4);
        for (send, request) in builder.sends.iter().zip(requests.iter()) {
            assert_eq!(send.x.as_canonical_u32(), request.x);
            assert_eq!(send.y.as_canonical_u32(), request.y);
            assert_eq!(send.z.as_canonical_u32(), request.x ^ request.y);
            assert_eq!(send.count.as_canonical_u32(), 1);
        }
    }
}

#[test]
fn a_wrong_sum_violates_a_constraint() {
    let step = BaseAluStep::<4, 8>::new(OFFSET);
    let record = BaseAluCoreRecord { b: [1, 2, 3, 4], c: [5, 6, 7, 8], local_opcode: 0 };
    let (mut cols, _) = step.fill_trace_row::<BabyBear>(&record);
    cols.a[1] = cols.a[1].add(BabyBear::one());
    let mut builder = AirBuilder::new();
    BaseAluCoreAir::<4, 8>::new(OFFSET).eval(&mut builder, &cols);
    assert!(builder.constraints.iter().any(|x| !x.is_zero()));
}

#[test]
fn a_wrong_or_shows_in_the_lookup() {
    let step = BaseAluStep::<4, 8>::new(OFFSET);
    let record = BaseAluCoreRecord { b: [12, 0, 0, 0], c: [10, 0, 0, 0], local_opcode: 3 };
    let (mut cols, requests) = step.fill_trace_row::<BabyBear>(&record);
    assert!(requests[0] == LookupRequest { kind: LookupKind::Xor, x: 12, y: 10 });
    cols.a[0] = fe(15);
    let mut builder = AirBuilder::new();
    BaseAluCoreAir::<4, 8>::new(OFFSET).eval(&mut builder, &cols);
    assert_ne!(builder.sends[0].z.as_canonical_u32(), 12 ^ 10);
}

#[test]
fn padding_rows_satisfy_the_constraints() {
    let zero = BabyBear::zero();
    let cols = openvm_circuit::rv32im::base_alu::columns::BaseAluCoreCols::<BabyBear, 4, 8> {
        a: [zero; 4],
        b: [zero; 4],
        c: [zero; 4],
        opcode_add_flag: zero,
        opcode_sub_flag: zero,
        opcode_xor_flag: zero,
        opcode_or_flag: zero,
        opcode_and_flag: zero,
    };
    let mut builder = AirBuilder::new();
    let ctx = BaseAluCoreAir::<4, 8>::new(OFFSET).eval(&mut builder, &cols);
    assert!(builder.constraints.iter().all(|x| x.is_zero()));
    assert!(builder.sends.iter().all(|s| s.count.is_zero()));
    assert!(ctx.is_valid.is_zero());
}

#[test]
fn shape_and_names() {
    let air = BaseAluCoreAir::<4, 8>::new(OFFSET);
    assert_eq!(air.width(), 17);
    assert_eq!(air.start_offset(), OFFSET);
    let step = BaseAluStep::<4, 8>::new(OFFSET);
    let names: Vec<String> = (0..5).map(|i| step.get_opcode_name(OFFSET + i)).collect();
    assert_eq!(names, vec!["ADD", "SUB", "XOR", "OR", "AND"]);
    assert_eq!(step.pre_compute_size(), std::mem::size_of::<BaseAluPreCompute>());
    assert_eq!(
        step.e2_pre_compute_size(),
        std::mem::size_of::<E2PreCompute<BaseAluPreCompute>>()
    );
}

#[test]
fn step_executes_and_records() {
    let step = BaseAluStep::<4, 8>::new(OFFSET);
    let mut pc = 0xffff_fffc;
    let reads = [[1, 0, 0, 0], [2, 0, 0, 0]];
    let (writes, record) = step.execute(&mut pc, &instruction(OFFSET + 1, 0, 0, 0, 1, 1), reads);
    assert_eq!(writes, [[255; 4]]);
    assert_eq!(pc, 0);
    assert_eq!((record.b, record.c, record.local_opcode), (reads[0], reads[1], 1));
}

#[test]
fn executes_with_an_immediate() {
    let step = BaseAluStep::<4, 8>::new(OFFSET);
    let mut data = BaseAluPreCompute { a: 0, b: 0, c: 0 };
    let inst = instruction(OFFSET, 8, 4, 0xff_ffff, 1, 0);
    let func = step.pre_compute_e1(0x40, &inst, &mut data).unwrap();
    assert!(func.is_imm);
    assert_eq!((data.a, data.b, data.c), (8, 4, 0xffff_ffff));
    let mut s = state(0x40);
    set_register(&mut s, 4, 10);
    func.call_e1(&data, &mut s);
    assert_eq!(register(&s, 8), 9);
    assert_eq!((s.pc, s.instret, s.imm_cnt), (0x44, 1, 1));
    assert_eq!(s.ctx.stats().get(1, 4, MemOp::Read), Some(1));
    assert_eq!(s.ctx.stats().get(1, 8, MemOp::Write), Some(1));
    assert_eq!(s.ctx.loadstore_stats().get(1, 8, MemOp::Write), None);
}

#[test]
fn executes_with_registers() {
    let step = BaseAluStep::<4, 8>::new(OFFSET);
    let mut data = E2PreCompute { chip_idx: 0, data: BaseAluPreCompute { a: 0, b: 0, c: 0 } };
    let inst = instruction(OFFSET + 4, 12, 4, 8, 1, 1);
    let func = step.pre_compute_e2(7, 0, &inst, &mut data).unwrap();
    assert_eq!(data.chip_idx, 7);
    assert!(!func.is_imm);
    let mut s = state(0);
    set_register(&mut s, 4, 0b1100);
    set_register(&mut s, 8, 0b1010);
    func.call_e1(&data.data, &mut s);
    assert_eq!(register(&s, 12), 0b1000);
    assert_eq!((s.pc, s.instret, s.imm_cnt), (4, 1, 0));
}

#[test]
fn refuses_operands_outside_registers() {
    let step = BaseAluStep::<4, 8>::new(OFFSET);
    let mut data = BaseAluPreCompute { a: 3, b: 4, c: 5 };
    let inst = instruction(OFFSET, 8, 4, 1, 2, 0);
    let refused = step.pre_compute_e1(0x80, &inst, &mut data);
    assert_eq!(refused.err(), Some(ExecutionError::InvalidInstruction(0x80)));
    let inst = instruction(OFFSET, 8, 4, 1, 1, 2);
    let refused = step.pre_compute_e1(0x84, &inst, &mut data);
    assert_eq!(refused.err(), Some(ExecutionError::InvalidInstruction(0x84)));
    assert_eq!((data.a, data.b, data.c), (3, 4, 5));
}

#[test]
fn subtraction_undoes_addition() {
    let samples = [
        ([1, 2, 3, 4], [255, 255, 255, 255]),
        ([0; 4], [0, 0, 0, 128]),
        ([200, 100, 0, 7], [100, 200, 255, 9]),
    ];
    for (x, y) in samples {
        let sum = run_alu::<4, 8>(BaseAluOpcode::ADD, &x, &y);
        assert_eq!(run_alu::<4, 8>(BaseAluOpcode::SUB, &sum, &y), x);
        let difference = run_alu::<4, 8>(BaseAluOpcode::SUB, &x, &y);
        assert_eq!(run_alu::<4, 8>(BaseAluOpcode::ADD, &difference, &y), x);
    }
    let (x, y) = ([3, 7, 0], [5, 7, 6]);
    let sum = run_alu::<3, 3>(BaseAluOpcode::ADD, &x, &y);
    assert_eq!(sum, [0, 7, 7]);
    assert_eq!(run_alu::<3, 3>(BaseAluOpcode::SUB, &sum, &y), x);
}
