use openvm_circuit::air::AirBuilder;
use openvm_circuit::arch::error::ExecutionError;
use openvm_circuit::arch::execution_mode::e1::E1Ctx;
use openvm_circuit::arch::segment::VmSegmentState;
use openvm_circuit::arch::vm::streams::Streams;
use openvm_circuit::field::baby_bear::BabyBear;
use openvm_circuit::field::PrimeField32;
use openvm_circuit::instructions::{Instruction, VmOpcode};
use openvm_circuit::rv32im::less_than::air::LessThanCoreAir;
use openvm_circuit::rv32im::less_than::comparison::run_less_than;
use openvm_circuit::rv32im::less_than::execute::LessThanPreCompute;
use openvm_circuit::rv32im::less_than::step::{LessThanCoreRecord, LessThanStep};
use openvm_circuit::system::memory::AddressMap;
use openvm_circuit::system::online::GuestMemory;
use rand::SeedableRng;

const OFFSET: usize = 0x208;

fn fe(n: u32) -> BabyBear {
    BabyBear::from_canonical_u32(n)
}

fn instruction(index: usize, a: u32, b: u32, c: u32, d: u32, e: u32) -> Instruction<BabyBear> {
    Instruction {
        opcode: VmOpcode { index },
        a: fe(a),
        b: fe(b),
        c: fe(c),
        d: fe(d),
        e: fe(e),
        f: fe(0),
        g: fe(0),
    }
}

#[test]
fn comparison_finds_the_differing_limb() {
    assert_eq!(run_less_than::<4, 8>(false, &[9, 1, 0, 0], &[3, 2, 0, 0]), (true, 1, false, false));
    assert_eq!(run_less_than::<4, 8>(true, &[255; 4], &[1, 0, 0, 0]), (true, 3, true, false));
    assert_eq!(run_less_than::<4, 8>(false, &[255; 4], &[1, 0, 0, 0]), (false, 3, false, false));
    assert_eq!(run_less_than::<4, 8>(true, &[0, 0, 0, 128], &[1, 0, 0, 128]), (true, 0, true, true));
    assert_eq!(run_less_than::<4, 8>(true, &[7, 0, 0, 0], &[7, 0, 0, 0]), (false, 4, false, false));
}

#[test]
fn comparison_agrees_with_words() {
    let words = [0u32, 1, 255, 256, 0x7fff_ffff, 0x8000_0000, 0xffff_ffff];
    for x in words {
        for y in words {
            let (b, c) = (x.to_le_bytes(), y.to_le_bytes());
            assert_eq!(run_less_than::<4, 8>(false, &b, &c).0, x < y);
            assert_eq!(run_less_than::<4, 8>(true, &b, &c).0, (x as i32) < (y as i32));
        }
    }
}

#[test]
fn filled_comparisons_satisfy_the_constraints() {
    let step = LessThanStep::<4, 8>::new(OFFSET);
    let air = LessThanCoreAir::<4, 8>::new(OFFSET);
    let samples = [
        ([1, 2, 3, 4], [1, 2, 3, 4]),
        ([255; 4], [0; 4]),
        ([0, 0, 0, 128], [255, 255, 255, 127]),
        ([5, 9, 0, 0], [5, 8, 0, 0]),
    ];
    for (b, c) in samples {
        for index in 0..2u8 {
            let record = LessThanCoreRecord::<4, 8> { b, c, local_opcode: index };
            let (cols, requests) = step.fill_trace_row::<BabyBear>(&record);
            let expected = run_less_than::<4, 8>(index == 0, &b, &c).0;
            assert_eq!(cols.cmp_result.as_canonical_u32(), expected as u32);
            let mut builder = AirBuilder::new();
            let ctx = air.eval(&mut builder, &cols);
            assert!(builder.constraints.iter().all(|x| x.is_zero()));
            assert_eq!(ctx.opcode.as_canonical_u32(), 0x208 + index as u32);
            assert_eq!(ctx.writes[0][0].as_canonical_u32(), expected as u32);
            assert!(ctx.writes[0][1].is_zero());
            let sent = builder.sends.iter().filter(|s| !s.count.is_zero()).count();
            assert_eq!(sent, requests.len());
        }
    }
}

#[test]
fn the_marker_stands_at_the_top_difference() {
    let step = LessThanStep::<4, 8>::new(OFFSET);
    let samples = [
        ([1, 2, 3, 4], [1, 2, 3, 4], [0, 0, 0, 0]),
        ([5, 9, 0, 0], [6, 8, 0, 0], [0, 1, 0, 0]),
        ([0, 0, 0, 128], [255, 255, 255, 127], [0, 0, 0, 1]),
        ([3, 7, 7, 7], [2, 7, 7, 7], [1, 0, 0, 0]),
    ];
    for (b, c, expected) in samples {
        for local_opcode in 0..2u8 {
            let record = LessThanCoreRecord::<4, 8> { b, c, local_opcode };
            let (mut cols, _) = step.fill_trace_row::<BabyBear>(&record);
            assert_eq!(cols.diff_marker.map(|x| x.as_canonical_u32()), expected);
            cols.diff_marker = [fe(0), fe(0), fe(1), fe(0)];
            let mut builder = AirBuilder::new();
            LessThanCoreAir::<4, 8>::new(OFFSET).eval(&mut builder, &cols);
            let refused = builder.constraints.iter().any(|x| !x.is_zero());
            // Where nothing differs, the lookup of a difference of zero is refused.
            let looked_up = builder.sends[1].x.as_canonical_u32();
            assert!(refused || looked_up > 255);
        }
    }
}

#[test]
fn a_wrong_comparison_violates_a_constraint() {
    let step = LessThanStep::<4, 8>::new(OFFSET);
    let record = LessThanCoreRecord::<4, 8> { b: [1; 4], c: [1; 4], local_opcode: 1 };
    let (mut cols, _) = step.fill_trace_row::<BabyBear>(&record);
    cols.cmp_result = BabyBear::one();
    let mut builder = AirBuilder::new();
    LessThanCoreAir::<4, 8>::new(OFFSET).eval(&mut builder, &cols);
    assert!(builder.constraints.iter().any(|x| !x.is_zero()));
}

#[test]
fn comparison_shape_and_names() {
    let air = LessThanCoreAir::<4, 8>::new(OFFSET);
    assert_eq!(air.width(), 18);
    assert_eq!(air.start_offset(), OFFSET);
    let step = LessThanStep::<4, 8>::new(OFFSET);
    assert_eq!(step.get_opcode_name(OFFSET), "SLT");
    assert_eq!(step.get_opcode_name(OFFSET + 1), "SLTU");
}

#[test]
fn comparison_step_records() {
    let step = LessThanStep::<4, 8>::new(OFFSET);
    let mut pc = 8;
    let reads = [[255; 4], [0; 4]];
    let (writes, record) = step.execute(&mut pc, &instruction(OFFSET, 0, 0, 0, 1, 1), reads);
    assert_eq!(writes, [[1, 0, 0, 0]]);
    assert_eq!(pc, 12);
    assert_eq!((record.b, record.c, record.local_opcode), (reads[0], reads[1], 0));
}

#[test]
fn executes_comparisons() {
    let step = LessThanStep::<4, 8>::new(OFFSET);
    for (index, expected) in [(OFFSET, 1u32), (OFFSET + 1, 0)] {
        let mut data = LessThanPreCompute { a: 0, b: 0, c: 0 };
        let inst = instruction(index, 8, 4, 3, 1, 0);
        let func = step.pre_compute_e1(0, &inst, &mut data).unwrap();
        let mut memory = AddressMap::new(&vec![0, 64]);
        memory.write::<u8, 4>(1, 4, (-5i32).to_le_bytes());
        let mut s: VmSegmentState<BabyBear, E1Ctx> = VmSegmentState::new(
            0,
            100,
            Some(GuestMemory::new(memory)),
            Streams::default(),
            rand::rngs::StdRng::seed_from_u64(0),
            E1Ctx::default(),
        );
        func.call_e1(&data, &mut s);
        assert_eq!(u32::from_le_bytes(s.memory.read::<u8, 4>(1, 8)), expected);
        assert_eq!((s.pc, s.instret), (104, 1));
    }
}

#[test]
fn refuses_comparisons_outside_registers() {
    let step = LessThanStep::<4, 8>::new(OFFSET);
    let mut data = LessThanPreCompute { a: 0, b: 0, c: 0 };
    let refused = step.pre_compute_e1(16, &instruction(OFFSET, 8, 4, 3, 0, 0), &mut data);
    assert_eq!(refused.err(), Some(ExecutionError::InvalidInstruction(16)));
}
