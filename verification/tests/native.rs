use openvm_circuit::air::AirBuilder;
use openvm_circuit::arch::execution_mode::e1::E1Ctx;
use openvm_circuit::arch::execution_mode::stats::MemOp;
use openvm_circuit::arch::segment::VmSegmentState;
use openvm_circuit::arch::vm::streams::Streams;
use openvm_circuit::field::baby_bear::BabyBear;
use openvm_circuit::field::PrimeField32;
use openvm_circuit::instructions::{FieldArithmeticOpcode, Instruction, VmOpcode};
use openvm_circuit::native::branch_eq::chip::{run_eq, NativeBranchEqualStep};
use openvm_circuit::native::branch_eq::execute::NativeBranchEqualPreCompute;
use openvm_circuit::native::field_arithmetic::chip::{
    run_field_arithmetic, FieldArithmeticCoreAir, FieldArithmeticCoreStep,
};
use openvm_circuit::native::field_arithmetic::execute::FieldArithmeticPreCompute;
use openvm_circuit::native::{transmute_field_to_u32, transmute_u32_to_field};
use openvm_circuit::system::memory::AddressMap;
use openvm_circuit::system::online::GuestMemory;
use rand::SeedableRng;

const ARITHMETIC: usize = 0x130;
const BRANCH: usize = 0x120;
const P: u32 = 2_013_265_921;

fn fe(n: u32) -> BabyBear {
    BabyBear::from_canonical_u32(n)
}

/// The operands `a` to `f`.
fn instruction(index: usize, operands: [u32; 6]) -> Instruction<BabyBear> {
    let [a, b, c, d, e, f] = operands;
    Instruction {
        opcode: VmOpcode { index },
        a: fe(a),
        b: fe(b),
        c: fe(c),
        d: fe(d),
        e: fe(e),
        f: fe(f),
        g: fe(0),
    }
}

fn state(pc: u32) -> VmSegmentState<BabyBear, E1Ctx> {
    let mut memory = AddressMap::new(&vec![0, 0, 0, 0, 16]);
    memory.write::<BabyBear, 1>(4, 2, [fe(6)]);
    memory.write::<BabyBear, 1>(4, 3, [fe(3)]);
    VmSegmentState::new(
        0,
        pc,
        Some(GuestMemory::new(memory)),
        Streams::default(),
        rand::rngs::StdRng::seed_from_u64(0),
        E1Ctx::default(),
    )
}

#[test]
fn field_results() {
    let run = |op, b, c| run_field_arithmetic(op, fe(b), fe(c)).as_canonical_u32();
    assert_eq!(run(FieldArithmeticOpcode::ADD, P - 1, 2), 1);
    assert_eq!(run(FieldArithmeticOpcode::SUB, 3, 5), P - 2);
    assert_eq!(run(FieldArithmeticOpcode::MUL, P - 1, P - 1), 1);
    assert_eq!(run(FieldArithmeticOpcode::DIV, 6, 3), 2);
    assert_eq!(run(FieldArithmeticOpcode::DIV, 1, 2), 1_006_632_961);
}

#[test]
fn filled_field_rows_satisfy_the_constraints() {
    let step = FieldArithmeticCoreStep::new();
    let air = FieldArithmeticCoreAir::new();
    assert_eq!(air.width(), 8);
    assert_eq!(air.start_offset(), ARITHMETIC);
    for index in 0..4usize {
        let mut pc = 0;
        let inst = instruction(ARITHMETIC + index, [0; 6]);
        let (written, record) = step.execute(&mut pc, &inst, [fe(7), fe(9)]);
        assert_eq!(pc, 4);
        let cols = step.fill_trace_row(&record);
        assert!(cols.a.equals(written[0]));
        let mut builder = AirBuilder::new();
        let ctx = air.eval(&mut builder, &cols);
        assert!(builder.constraints.iter().all(|x| x.is_zero()));
        assert_eq!(ctx.opcode.as_canonical_u32(), (ARITHMETIC + index) as u32);
        let mut wrong = cols;
        wrong.a = wrong.a.add(BabyBear::one());
        let mut builder = AirBuilder::new();
        air.eval(&mut builder, &wrong);
        assert!(builder.constraints.iter().any(|x| !x.is_zero()));
    }
    assert_eq!(step.get_opcode_name(ARITHMETIC + 3), "DIV");
}

#[test]
fn executes_field_arithmetic() {
    let step = FieldArithmeticCoreStep::new();
    let mut data = FieldArithmeticPreCompute { a: 0, b_or_imm: 0, c_or_imm: 0, e: 0, f: 0 };
    let inst = instruction(ARITHMETIC + 3, [5, 2, 3, 4, 4, 4]);
    let func = step.pre_compute_e1(0, &inst, &mut data).unwrap();
    assert!(!func.a_is_imm && !func.b_is_imm);
    let mut s = state(8);
    func.call_e1(&data, &mut s);
    assert_eq!(s.memory.read::<BabyBear, 1>(4, 5)[0].as_canonical_u32(), 2);
    assert_eq!((s.pc, s.instret), (12, 1));
    assert_eq!(s.ctx.stats().get(4, 5, MemOp::Write), Some(1));
    let inst = instruction(ARITHMETIC, [5, P - 1, 3, 4, 0, 4]);
    let func = step.pre_compute_e1(0, &inst, &mut data).unwrap();
    assert!(func.a_is_imm && !func.b_is_imm);
    func.call_e1(&data, &mut s);
    assert_eq!(s.memory.read::<BabyBear, 1>(4, 5)[0].as_canonical_u32(), 2);
}

#[test]
fn division_by_zero_fails() {
    let step = FieldArithmeticCoreStep::new();
    let mut data = FieldArithmeticPreCompute { a: 0, b_or_imm: 0, c_or_imm: 0, e: 0, f: 0 };
    let inst = instruction(ARITHMETIC + 3, [5, 2, 0, 4, 4, 0]);
    let func = step.pre_compute_e1(0, &inst, &mut data).unwrap();
    let mut s = state(8);
    func.call_e1(&data, &mut s);
    assert!(s.exit_code.is_err());
    assert_eq!((s.pc, s.instret), (8, 0));
    let mut s = state(8);
    s.instret = u64::MAX;
    func.call_e1(&data, &mut s);
    assert!(s.exit_code.is_err());
    assert_eq!((s.pc, s.instret), (8, u64::MAX));
}

#[test]
fn equality_and_its_witness() {
    assert_eq!(run_eq(true, fe(4), fe(4)).0, true);
    assert_eq!(run_eq(false, fe(4), fe(4)).0, false);
    assert!(run_eq(true, fe(4), fe(4)).1.is_zero());
    let (branch, inv) = run_eq(true, fe(9), fe(4));
    assert!(!branch);
    assert_eq!(inv.mul(fe(5)).as_canonical_u32(), 1);
    assert!(run_eq(false, fe(9), fe(4)).0);
}

#[test]
fn branches_are_taken_or_not() {
    let step = NativeBranchEqualStep::new(BRANCH, 4);
    assert_eq!(step.get_opcode_name(BRANCH), "NativeBranchEqualOpcode(BEQ)");
    assert_eq!(step.get_opcode_name(BRANCH + 1), "NativeBranchEqualOpcode(BNE)");
    for (index, equal, expected) in
        [(0, true, 120), (0, false, 104), (1, true, 104), (1, false, 120)]
    {
        let inst = instruction(BRANCH + index, [2, if equal { 2 } else { 3 }, 20, 4, 4, 0]);
        let mut data = NativeBranchEqualPreCompute { imm: 0, a_or_imm: 0, b_or_imm: 0 };
        let func = step.pre_compute_e1(0, &inst, &mut data).unwrap();
        let mut s = state(100);
        func.call_e1(&data, &mut s);
        assert_eq!((s.pc, s.instret), (expected, 1));
        let mut pc = 100;
        let reads = [fe(6), if equal { fe(6) } else { fe(3) }];
        let record = step.execute(&mut pc, &inst, reads);
        assert_eq!(pc, expected);
        let cols = step.fill_trace_row(&record);
        assert_eq!(cols.cmp_result.as_canonical_u32(), (expected == 120) as u32);
        assert_eq!(cols.imm.as_canonical_u32(), 20);
        assert_eq!(cols.opcode_beq_flag.as_canonical_u32(), (index == 0) as u32);
    }
}

#[test]
fn branches_backwards() {
    let step = NativeBranchEqualStep::new(BRANCH, 4);
    let inst = instruction(BRANCH, [2, 6, P - 40, 4, 0, 0]);
    let mut data = NativeBranchEqualPreCompute { imm: 0, a_or_imm: 0, b_or_imm: 0 };
    let func = step.pre_compute_e1(0, &inst, &mut data).unwrap();
    let mut s = state(100);
    func.call_e1(&data, &mut s);
    assert_eq!(s.pc, 60);
}

#[test]
fn words_stand_for_elements() {
    assert_eq!(transmute_field_to_u32(&fe(P - 1)), P - 1);
    let x: BabyBear = transmute_u32_to_field(&77);
    assert_eq!(x.as_canonical_u32(), 77);
}
