use openvm_circuit::arch::execution_mode::{
    E1ExecutionCtx, E2ExecutionCtx, E2PreCompute, MemoryOperation,
};
use openvm_circuit::arch::segment::VmSegmentState;
use openvm_circuit::arch::vm::streams::Streams;
use openvm_circuit::field::baby_bear::BabyBear;
use openvm_circuit::field::PrimeField32;
use openvm_circuit::instructions::{Instruction, VmOpcode};
use openvm_circuit::native::branch_eq::chip::NativeBranchEqualStep;
use openvm_circuit::native::branch_eq::execute::NativeBranchEqualPreCompute;
use openvm_circuit::native::field_arithmetic::chip::FieldArithmeticCoreStep;
use openvm_circuit::native::field_arithmetic::execute::FieldArithmeticPreCompute;
use openvm_circuit::rv32im::base_alu::execute::BaseAluPreCompute;
use openvm_circuit::rv32im::base_alu::step::BaseAluStep;
use openvm_circuit::rv32im::less_than::execute::LessThanPreCompute;
use openvm_circuit::rv32im::less_than::step::LessThanStep;
use openvm_circuit::rv32im::loadstore::execute::LoadStorePreCompute;
use openvm_circuit::rv32im::loadstore::step::LoadStoreStep;
use openvm_circuit::system::memory::AddressMap;
use openvm_circuit::system::online::GuestMemory;
use rand::SeedableRng;

/// Counts the rows of every chip, and the accesses.
#[derive(Clone, Debug, PartialEq)]
struct Meter {
    heights: Vec<u32>,
    accesses: usize,
}

impl E1ExecutionCtx for Meter {
    type V = Meter;

    fn ctx_view(&self) -> Meter {
        self.clone()
    }

    fn accepts(_v: Meter, _op: MemoryOperation) -> bool {
        true
    }

    fn after(v: Meter, _op: MemoryOperation) -> Meter {
        Meter { accesses: v.accesses + 1, ..v }
    }

    fn on_memory_operation(&mut self, _: u32, _: u32, _: u32, _: bool, _: bool) {
        self.accesses += 1;
    }

    fn should_suspend<F>(_vm_state: &mut VmSegmentState<F, Self>) -> bool {
        false
    }
}

impl E2ExecutionCtx for Meter {
    fn accepts_height(v: Meter, chip_idx: usize, _height_delta: u32) -> bool {
        chip_idx < v.heights.len()
    }

    fn after_height(v: Meter, chip_idx: usize, height_delta: u32) -> Meter {
        let mut r = v;
        r.heights[chip_idx] += height_delta;
        r
    }

    fn on_height_change(&mut self, chip_idx: usize, height_delta: u32) {
        self.heights[chip_idx] += height_delta;
    }
}

fn state() -> VmSegmentState<BabyBear, Meter> {
    let mut memory = AddressMap::new(&vec![0, 64, 64, 0, 16]);
    memory.write::<u8, 4>(1, 4, [8, 0, 0, 0]);
    memory.write::<u8, 4>(1, 8, [3, 0, 0, 0]);
    memory.write::<u8, 4>(2, 8, [9, 0, 0, 0]);
    VmSegmentState::new(
        0,
        100,
        Some(GuestMemory::new(memory)),
        Streams::default(),
        rand::rngs::StdRng::seed_from_u64(0),
        Meter { heights: vec![0; 3], accesses: 0 },
    )
}

/// The operands `a` to `f`.
fn instruction(index: usize, operands: [u32; 6]) -> Instruction<BabyBear> {
    let [a, b, c, d, e, f] = operands.map(BabyBear::from_canonical_u32);
    Instruction { opcode: VmOpcode { index }, a, b, c, d, e, f, g: BabyBear::zero() }
}

#[test]
fn metered_addition() {
    let mut data = E2PreCompute { chip_idx: 0, data: BaseAluPreCompute { a: 0, b: 0, c: 0 } };
    let inst = instruction(0x200, [12, 4, 8, 1, 1, 0]);
    let func = BaseAluStep::<4, 8>::new(0x200).pre_compute_e2(2, 0, &inst, &mut data).unwrap();
    let mut s = state();
    func.call_e2(&data, &mut s);
    assert_eq!(s.memory.read::<u8, 4>(1, 12), [11, 0, 0, 0]);
    assert_eq!(s.ctx, Meter { heights: vec![0, 0, 1], accesses: 3 });
}

#[test]
fn metered_comparison() {
    let mut data = E2PreCompute { chip_idx: 0, data: LessThanPreCompute { a: 0, b: 0, c: 0 } };
    let inst = instruction(0x209, [12, 8, 4, 1, 1, 0]);
    let func = LessThanStep::<4, 8>::new(0x208).pre_compute_e2(1, 0, &inst, &mut data).unwrap();
    let mut s = state();
    func.call_e2(&data, &mut s);
    assert_eq!(s.memory.read::<u8, 4>(1, 12), [1, 0, 0, 0]);
    assert_eq!(s.ctx, Meter { heights: vec![0, 1, 0], accesses: 3 });
}

#[test]
fn metered_load() {
    let mut data = E2PreCompute {
        chip_idx: 0,
        data: LoadStorePreCompute { imm_extended: 0, a: 0, b: 0, e: 0 },
    };
    let inst = instruction(0x210, [12, 4, 0, 1, 2, 1]);
    let func = LoadStoreStep::<4>::new(0x210).pre_compute_e2(0, 0, &inst, &mut data).unwrap();
    let mut s = state();
    func.call_e2(&data, &mut s);
    assert_eq!(s.memory.read::<u8, 4>(1, 12), [9, 0, 0, 0]);
    assert_eq!(s.ctx, Meter { heights: vec![1, 0, 0], accesses: 3 });
}

#[test]
fn metered_field_arithmetic() {
    let mut data = E2PreCompute {
        chip_idx: 0,
        data: FieldArithmeticPreCompute { a: 0, b_or_imm: 0, c_or_imm: 0, e: 0, f: 0 },
    };
    let inst = instruction(0x132, [5, 6, 7, 4, 0, 0]);
    let func = FieldArithmeticCoreStep::new().pre_compute_e2(0, 0, &inst, &mut data).unwrap();
    let mut s = state();
    func.call_e2(&data, &mut s);
    assert_eq!(s.memory.read::<BabyBear, 1>(4, 5)[0].as_canonical_u32(), 42);
    assert_eq!(s.ctx, Meter { heights: vec![1, 0, 0], accesses: 1 });
}

#[test]
fn metered_branch() {
    let mut data = E2PreCompute {
        chip_idx: 0,
        data: NativeBranchEqualPreCompute { imm: 0, a_or_imm: 0, b_or_imm: 0 },
    };
    let inst = instruction(0x121, [3, 7, 24, 4, 0, 0]);
    let step = NativeBranchEqualStep::new(0x120, 4);
    let func = step.pre_compute_e2(1, 0, &inst, &mut data).unwrap();
    let mut s = state();
    func.call_e2(&data, &mut s);
    assert_eq!((s.pc, s.instret), (124, 1));
    assert_eq!(s.ctx, Meter { heights: vec![0, 1, 0], accesses: 1 });
}
