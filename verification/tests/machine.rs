use openvm_circuit::arch::error::ExecutionError;
use openvm_circuit::arch::execution_mode::e1::E1Ctx;
use openvm_circuit::arch::execution_mode::stats::MemOp;
use openvm_circuit::arch::execution_mode::E1ExecutionCtx;
use openvm_circuit::arch::segment::{VmSegmentState, VmStateMut};
use openvm_circuit::arch::segment_executor::{decide, Decision, VmSegmentExecutor};
use openvm_circuit::arch::vm::complex::{
    create_and_initialize_chip_complex, next_power_of_two, ChipId, ConnectorState,
    SystemTraceHeights, VmChipComplex, VmComplexTraceHeights, VmInventoryTraceHeights,
};
use openvm_circuit::arch::vm::config::{
    MemoryConfig, SegmentationLimits, SystemConfig, VmConfig, VmInventoryError,
};
use openvm_circuit::arch::vm::control::{
    ExecutionControl, InstructionExecutor, Machine, TracegenCtx, TracegenExecutionControl,
};
use openvm_circuit::arch::vm::exe::{DebugInfo, Program, VmExe};
use openvm_circuit::arch::vm::executor::{TracegenSegment, VmExecutor};
use openvm_circuit::arch::vm::generate::VmCommittedExe;
use openvm_circuit::arch::vm::interpreter::{Interpreter, MeterLimits, MeteredOutcome, Segment};
use openvm_circuit::arch::vm::machine::{verify_single, ProofEngine, VirtualMachine};
use openvm_circuit::arch::vm::run::{check_end_state, GenerationError};
use openvm_circuit::arch::vm::single::{SingleSegmentVmExecutor, TraceMeasure};
use openvm_circuit::arch::vm::streams::Streams;
use openvm_circuit::arch::vm::verify::{
    verify_boundaries, AirProofData, JudgedProof, ProofVerifier, SegmentProof, Statement,
    VmVerificationError,
};
use openvm_circuit::field::baby_bear::BabyBear;
use openvm_circuit::field::PrimeField32;
use openvm_circuit::instructions::{Instruction, VmOpcode};
use openvm_circuit::system::memory::{AddressMap, MemoryImage, SparseMemoryImage};
use openvm_circuit::system::online::GuestMemory;
use openvm_stark_backend::keygen::types::LinearConstraint;
use rand::rngs::StdRng;
use rand::SeedableRng;

/// Counts the instructions that it executes in the first cell of memory.
#[derive(Clone)]
struct Counter {
    panics: Vec<(u32, Option<u64>)>,
}

impl InstructionExecutor<BabyBear> for Counter {
    fn executes(
        _before: Machine<BabyBear, Self>,
        _after: Machine<BabyBear, Self>,
        _instruction: Instruction<BabyBear>,
        _error: Option<ExecutionError>,
    ) -> bool {
        true
    }

    fn notes_panic(_pc: u32, _backtrace: Option<u64>, _before: Self, _after: Self) -> bool {
        true
    }

    fn execute(
        &mut self,
        state: VmStateMut<'_, BabyBear, MemoryImage, ()>,
        instruction: &Instruction<BabyBear>,
    ) -> Result<(), ExecutionError> {
        if instruction.opcode.index == 99 {
            return Err(ExecutionError::DisabledOperation {
                pc: *state.pc,
                opcode: instruction.opcode,
            });
        }
        let [n] = state.memory.read::<u8, 1>(2, 0);
        state.memory.write::<u8, 1>(2, 0, [n + 1]);
        *state.pc += 4;
        Ok(())
    }

    fn on_debug_panic(&mut self, pc: u32, backtrace: Option<u64>) {
        self.panics.push((pc, backtrace));
    }
}

type Complex = VmChipComplex<BabyBear, Counter>;

#[derive(Clone)]
struct CounterConfig {
    system: SystemConfig,
}

impl VmConfig<BabyBear> for CounterConfig {
    type Executor = Counter;

    fn spec_system(&self) -> SystemConfig {
        self.system.clone()
    }

    fn creates(&self, r: Result<VmChipComplex<BabyBear, Counter>, VmInventoryError>) -> bool {
        r.is_ok()
    }

    fn system(&self) -> &SystemConfig {
        &self.system
    }

    fn create_chip_complex(&self) -> Result<VmChipComplex<BabyBear, Counter>, VmInventoryError> {
        Ok(VmChipComplex {
            config: self.system.clone(),
            program: Program::empty(),
            initial_memory: None,
            memory: AddressMap::new(&self.system.memory_config.addr_space_sizes),
            memory_num_airs: 3,
            num_access_adapters: 1,
            adapter_heights: vec![],
            insertion_order: vec![
                ChipId::Executor(0), ChipId::Periphery(0), ChipId::Executor(1), ChipId::Executor(9),
            ],
            executor_heights: vec![0, 0],
            overridden_system: None,
            overridden_inventory: None,
            begin: None,
            end: None,
            executors: Counter { panics: vec![] },
        })
    }
}

fn system(continuation_enabled: bool) -> SystemConfig {
    SystemConfig {
        continuation_enabled,
        profiling: false,
        num_public_values: 3,
        memory_config: MemoryConfig { addr_space_sizes: vec![0, 4, 4] },
        segmentation_limits: SegmentationLimits { max_trace_height: 1 << 20, max_cells: 77 },
    }
}

fn config(continuation_enabled: bool) -> CounterConfig {
    CounterConfig { system: system(continuation_enabled) }
}

fn instruction(index: usize, c: u32) -> Instruction<BabyBear> {
    let zero = BabyBear::zero();
    Instruction {
        opcode: VmOpcode { index },
        a: zero,
        b: zero,
        c: BabyBear::from_canonical_u32(c),
        d: zero,
        e: zero,
        f: zero,
        g: zero,
    }
}

fn program(instructions: &[(usize, u32)]) -> Program<BabyBear> {
    let info = |i: usize| {
        let trace = if i % 2 == 0 { Some(i as u64 + 70) } else { None };
        Some(DebugInfo { dsl_instruction: format!("line {}", i), trace })
    };
    Program {
        instructions_and_debug_infos: instructions
            .iter()
            .enumerate()
            .map(|(i, &(index, c))| Some((instruction(index, c), info(i))))
            .collect(),
        step: 4,
        pc_base: 8,
    }
}

fn exe(instructions: &[(usize, u32)]) -> VmExe<BabyBear> {
    VmExe {
        program: program(instructions),
        pc_start: 8,
        init_memory: SparseMemoryImage { bytes: vec![] },
    }
}

fn segment(instret_start: u64, num_insns: u64) -> Segment {
    Segment { instret_start, num_insns, trace_heights: vec![1, 2, 3, 4, 5, 6, 7, 8] }
}

/// Five instructions, then the end.
const PROGRAM: [(usize, u32); 6] = [(50, 0), (50, 0), (50, 0), (1, 0), (1, 0x1_0003), (0, 0)];

#[test]
fn powers_of_two() {
    assert_eq!(next_power_of_two(0), 1);
    assert_eq!(next_power_of_two(1), 1);
    assert_eq!(next_power_of_two(5), 8);
    assert_eq!(next_power_of_two(8), 8);
    assert_eq!(next_power_of_two(0x4000_0001), 0x8000_0000);
    assert_eq!(next_power_of_two(0x8000_0000), 0x8000_0000);
}

#[test]
fn chips_take_their_heights() {
    let heights = [10, 11, 12, 13, 14, 15, 16, 17];
    let complex =
        create_and_initialize_chip_complex(&config(true), program(&PROGRAM), None, Some(&heights))
            .unwrap();
    assert_eq!(complex.adapter_heights, vec![14]);
    assert_eq!(complex.executor_heights, vec![0, 16]);
    let complex =
        create_and_initialize_chip_complex(&config(false), program(&PROGRAM), None, Some(&heights))
            .unwrap();
    assert_eq!(complex.adapter_heights, vec![14]);
    assert_eq!(complex.executor_heights, vec![0, 32]);
    let heights = [u32::MAX, u32::MAX, u32::MAX, u32::MAX, u32::MAX, 15, 1 << 31, u32::MAX];
    let complex =
        create_and_initialize_chip_complex(&config(true), program(&PROGRAM), None, Some(&heights))
            .unwrap();
    assert_eq!(complex.adapter_heights, vec![u32::MAX]);
    assert_eq!(complex.executor_heights, vec![0, 1 << 31]);
    let none: Option<&[u32]> = None;
    let complex =
        create_and_initialize_chip_complex(&config(false), program(&PROGRAM), None, none).unwrap();
    assert!(complex.adapter_heights.is_empty());
    assert_eq!(complex.executor_heights, vec![0, 0]);
}

#[test]
fn debug_information_is_kept_for_profiling() {
    let has_info = |c: &VmChipComplex<BabyBear, Counter>| {
        c.program.instructions_and_debug_infos[1].as_ref().unwrap().1.is_some()
    };
    let mut config = config(true);
    let complex =
        create_and_initialize_chip_complex(&config, program(&PROGRAM), None, None).unwrap();
    assert!(!has_info(&complex));
    config.system.profiling = true;
    let complex =
        create_and_initialize_chip_complex(&config, program(&PROGRAM), None, None).unwrap();
    assert!(has_info(&complex));
    assert_eq!(complex.program.instructions_and_debug_infos.len(), 6);
    assert_eq!((complex.program.step, complex.program.pc_base), (4, 8));
}

#[test]
fn public_values_have_a_chip_without_continuations() {
    assert!(system(false).has_public_values_chip());
    assert!(!system(true).has_public_values_chip());
    let mut config = system(false);
    config.num_public_values = 0;
    assert!(!config.has_public_values_chip());
}

#[test]
fn instructions_are_found_by_program_counter() {
    let mut p = program(&PROGRAM);
    p.instructions_and_debug_infos[2] = None;
    assert_eq!(p.get_instruction(12).unwrap().opcode.index, 50);
    assert_eq!(p.get_instruction(28).unwrap().opcode.index, 0);
    assert_eq!(
        p.get_instruction(16).err(),
        Some(ExecutionError::PcNotFound { pc: 16, step: 4, pc_base: 8, program_len: 6 })
    );
    for pc in [4, 32] {
        assert_eq!(
            p.get_instruction(pc).err(),
            Some(ExecutionError::PcOutOfBounds { pc, step: 4, pc_base: 8, program_len: 6 })
        );
    }
}

#[test]
fn decisions_on_instructions() {
    assert_eq!(decide(&instruction(0, 9)), Decision::Terminate(9));
    assert_eq!(decide(&instruction(1, 1)), Decision::Fail);
    assert_eq!(decide(&instruction(1, 0x5_0001)), Decision::Fail);
    assert_eq!(decide(&instruction(1, 2)), Decision::Execute);
    assert_eq!(decide(&instruction(1, 77)), Decision::Execute);
    assert_eq!(decide(&instruction(2, 1)), Decision::Execute);
}

#[test]
fn a_run_over_segments_hands_its_state_on() {
    let mut executor = VmExecutor::new(config(true));
    assert!(executor.continuation_enabled());
    let constraint = LinearConstraint { coefficients: vec![1, 2], threshold: 3 };
    executor.set_trace_height_constraints(vec![constraint.clone()]);
    let segments = [segment(0, 2), segment(2, 3), segment(5, 100)];
    let executors =
        executor.execute_segments(&exe(&PROGRAM), Streams::default(), &segments).unwrap();
    let ends: Vec<_> = executors
        .iter()
        .map(|e| (e.chip_complex.begin.unwrap(), e.chip_complex.end.unwrap()))
        .collect();
    let at = |pc, is_terminate, exit_code| ConnectorState { pc, is_terminate, exit_code };
    assert_eq!(ends[0], (at(8, 0, 0), at(16, 0, 42)));
    assert_eq!(ends[1], (at(16, 0, 0), at(28, 0, 42)));
    assert_eq!(ends[2], (at(28, 0, 0), at(28, 1, 0)));
    let counts: Vec<u32> = executors.iter().map(|e| e.chip_complex.memory.mem[2][0]).collect();
    assert_eq!(counts, vec![2, 5, 5]);
    let starts: Vec<u32> = executors
        .iter()
        .map(|e| e.chip_complex.initial_memory.as_ref().unwrap().mem[2][0])
        .collect();
    assert_eq!(starts, vec![0, 2, 5]);
    assert!(executors.iter().all(|e| e.trace_height_constraints == vec![constraint.clone()]));
    assert!(executors.iter().all(|e| e.chip_complex.executor_heights == vec![0, 8]));
}

/// A proof that states what a segment did; the root of memory is its first cell.
fn stated(executor: &TracegenSegment<BabyBear, Counter>) -> JudgedProof<BabyBear, u8> {
    let fe = BabyBear::from_canonical_u32;
    let complex = &executor.chip_complex;
    let (begin, end) = (complex.begin.unwrap(), complex.end.unwrap());
    let root = |m: &MemoryImage| {
        let mut r = vec![BabyBear::zero(); 8];
        r[0] = fe(m.mem[2][0]);
        r
    };
    let mut roots = root(complex.initial_memory.as_ref().unwrap());
    roots.extend(root(&complex.memory));
    let connector = vec![fe(begin.pc), fe(end.pc), fe(end.exit_code), fe(end.is_terminate)];
    JudgedProof {
        stark: Ok(()),
        statement: Statement {
            main_trace: vec![[fe(4); 8]],
            per_air: vec![
                AirProofData { air_id: 3, public_values: roots },
                AirProofData { air_id: 0, public_values: vec![] },
                AirProofData { air_id: 1, public_values: connector },
            ],
        },
    }
}

#[test]
fn the_proofs_of_a_successful_run_are_accepted() {
    let executor = VmExecutor::new(config(true));
    let segments = [segment(0, 2), segment(2, 3), segment(5, 1)];
    let executors =
        executor.execute_segments(&exe(&PROGRAM), Streams::default(), &segments).unwrap();
    let proofs: Vec<_> = executors.iter().map(stated).collect();
    let verified: Result<_, VmVerificationError<u8, u8>> = verify_boundaries(proofs);
    let boundary = verified.unwrap();
    assert_eq!(boundary.start_pc.as_canonical_u32(), 8);
    assert_eq!(boundary.initial_memory_root[0].as_canonical_u32(), 0);
    assert_eq!(boundary.final_memory_root[0].as_canonical_u32(), 5);
}

#[test]
fn a_run_ends_with_its_memory() {
    let executor = VmExecutor::new(config(true));
    let memory = executor
        .execute(&exe(&PROGRAM), Streams::default(), &[segment(0, 4), segment(4, 2)])
        .unwrap()
        .unwrap();
    assert_eq!(memory.mem[2][0], 5);
}

#[test]
fn a_run_that_does_not_end_is_refused() {
    let executor = VmExecutor::new(config(true));
    let r = executor.execute(&exe(&PROGRAM), Streams::default(), &[segment(0, 4)]);
    assert_eq!(r.err(), Some(ExecutionError::DidNotTerminate));
}

#[test]
fn a_run_that_fails_is_refused() {
    let executor = VmExecutor::new(config(true));
    let run = |instructions: &[(usize, u32)]| {
        executor.execute(&exe(instructions), Streams::default(), &[segment(0, 9)]).err()
    };
    assert_eq!(run(&[(50, 0), (0, 3)]), Some(ExecutionError::FailedWithExitCode(3)));
    assert_eq!(run(&[(50, 0), (1, 1)]), Some(ExecutionError::Fail { pc: 12 }));
    assert_eq!(
        run(&[(99, 0)]),
        Some(ExecutionError::DisabledOperation { pc: 8, opcode: VmOpcode { index: 99 } })
    );
    assert_eq!(
        run(&[(50, 0)]),
        Some(ExecutionError::PcOutOfBounds { pc: 12, step: 4, pc_base: 8, program_len: 1 })
    );
}

#[test]
fn a_machine_without_extensions_executes_nothing() {
    let executor = VmExecutor::<BabyBear, SystemConfig>::new(system(true));
    let run = |instructions: &[(usize, u32)]| {
        executor.execute(&exe(instructions), Streams::default(), &[segment(0, 9)])
    };
    assert!(run(&[(0, 0)]).unwrap().is_some());
    assert_eq!(
        run(&[(50, 0)]).err(),
        Some(ExecutionError::DisabledOperation { pc: 8, opcode: VmOpcode { index: 50 } })
    );
}

#[test]
fn segments_are_given_to_a_function() {
    let executor = VmExecutor::new(config(true));
    let segments = [segment(0, 1), segment(1, 1), segment(2, 4)];
    let pcs = executor
        .execute_and_then(
            &exe(&PROGRAM),
            Streams::default(),
            &segments,
            |i, s| Ok::<_, String>((i, s.chip_complex.end.unwrap().pc)),
            |e| format!("{:?}", e),
        )
        .unwrap();
    assert_eq!(pcs, vec![(0, 12), (1, 16), (2, 28)]);
    let failed = executor.execute_and_then(
        &exe(&[(99, 0)]),
        Streams::default(),
        &segments,
        |i, _| Ok::<_, String>(i),
        |_| "failed".to_string(),
    );
    assert_eq!(failed.err(), Some("failed".to_string()));
}

#[test]
fn end_states_are_checked() {
    let at = |is_terminate, exit_code| ConnectorState { pc: 0, is_terminate, exit_code };
    assert_eq!(check_end_state(at(1, 0)), Ok(()));
    assert_eq!(check_end_state(at(0, 0)), Err(ExecutionError::DidNotTerminate));
    assert_eq!(check_end_state(at(1, 5)), Err(ExecutionError::FailedWithExitCode(5)));
}

fn segment_executor(
    continuation_enabled: bool,
) -> VmSegmentExecutor<BabyBear, Counter, TracegenExecutionControl> {
    let complex = create_and_initialize_chip_complex(
        &config(continuation_enabled),
        program(&PROGRAM),
        None,
        None,
    )
    .unwrap();
    VmSegmentExecutor::new(complex, vec![], TracegenExecutionControl)
}

fn segment_state(instret: u64, pc: u32, end: Option<u64>) -> VmSegmentState<BabyBear, TracegenCtx> {
    VmSegmentState::new(
        instret,
        pc,
        None,
        Streams::default(),
        StdRng::seed_from_u64(0),
        TracegenCtx::new(end),
    )
}

#[test]
fn segments_suspend_only_with_continuations() {
    let mut executor = segment_executor(true);
    let mut state = segment_state(10, 8, Some(13));
    assert!(!executor.should_suspend(&state));
    assert_eq!(executor.execute_from_state(&mut state), Ok(()));
    assert_eq!((state.instret, state.pc, state.exit_code), (13, 20, Ok(None)));
    assert!(executor.should_suspend(&state));
    assert_eq!(executor.execute_from_state(&mut state), Ok(()));
    assert_eq!(state.instret, 13);
    let mut executor = segment_executor(false);
    let mut state = segment_state(10, 8, Some(13));
    assert_eq!(executor.execute_from_state(&mut state), Ok(()));
    assert_eq!((state.instret, state.pc, state.exit_code), (16, 28, Ok(Some(0))));
    assert!(!executor.should_suspend(&state));
    assert!(!executor.system_config().continuation_enabled);
}

#[test]
fn the_count_of_instructions_cannot_overflow() {
    let mut executor = segment_executor(false);
    let mut state = segment_state(u64::MAX - 1, 8, None);
    assert_eq!(executor.execute_from_state(&mut state), Err(ExecutionError::InstretOverflow));
    let executor = VmExecutor::new(config(true));
    let segments = [segment(0, 1), segment(1, u64::MAX)];
    let r = executor.execute(&exe(&PROGRAM), Streams::default(), &segments);
    assert_eq!(r.err(), Some(ExecutionError::InstretOverflow));
}

#[test]
fn a_failing_instruction_is_not_counted() {
    let run = |lines: &[(usize, u32)]| {
        let mut executor = segment_executor(false);
        executor.chip_complex.program = program(lines);
        let mut state = segment_state(5, 8, None);
        let error = executor.execute_from_state(&mut state).unwrap_err();
        let memory = executor.chip_complex.memory.mem[2][0];
        assert!(executor.chip_complex.begin.unwrap().pc == 8 && executor.chip_complex.end.is_none());
        (error, state.instret, state.pc, memory)
    };
    let disabled =
        ExecutionError::DisabledOperation { pc: 16, opcode: VmOpcode { index: 99 } };
    assert_eq!(run(&[(7, 0), (7, 0), (99, 0)]), (disabled, 7, 16, 2));
    assert_eq!(run(&[(7, 0), (1, 1)]), (ExecutionError::Fail { pc: 12 }, 6, 12, 1));
    let (error, instret, pc, memory) = run(&[(7, 0)]);
    assert!(matches!(error, ExecutionError::PcOutOfBounds { pc: 12, .. }));
    assert_eq!((instret, pc, memory), (6, 12, 1));
}

#[test]
fn a_failing_program_is_noted() {
    let mut executor = segment_executor(false);
    executor.chip_complex.program = program(&[(1, 1)]);
    let mut state = segment_state(0, 8, None);
    let mut slot = Some(3);
    let failed = executor.execute_instruction(&mut state, &mut slot);
    assert_eq!(failed, Err(ExecutionError::Fail { pc: 8 }));
    assert_eq!(executor.chip_complex.executors.panics, vec![(8, Some(3))]);
    assert_eq!((state.instret, state.pc, slot), (0, 8, None));
}

#[test]
fn the_backtrace_is_that_of_the_instruction_before() {
    let noted = |lines: &[(usize, u32)]| {
        let mut executor = segment_executor(false);
        executor.chip_complex.program = program(lines);
        assert!(executor.execute_from_state(&mut segment_state(0, 8, None)).is_err());
        executor.chip_complex.executors.panics.clone()
    };
    assert_eq!(noted(&[(1, 1)]), vec![(8, None)]);
    assert_eq!(noted(&[(7, 0), (1, 1)]), vec![(12, Some(70))]);
    assert_eq!(noted(&[(7, 0), (7, 0), (1, 1)]), vec![(16, None)]);
    assert_eq!(noted(&[(7, 0), (7, 0), (7, 0), (1, 1)]), vec![(20, Some(72))]);
    let p = program(&[(7, 0), (7, 0)]);
    assert_eq!((p.trace(8), p.trace(12), p.trace(16), p.trace(0)), (Some(70), None, None, None));
    assert_eq!(p.strip_debug_infos().trace(8), None);
    let mut executor = segment_executor(false);
    let (mut state, mut slot) = (segment_state(0, 8, None), None);
    executor.chip_complex.program = program(&PROGRAM);
    assert_eq!(executor.execute_instruction(&mut state, &mut slot), Ok(()));
    assert_eq!((slot, state.pc), (Some(70), 12));
}

/// Suspends as soon as the first cell of memory reaches a bound, and records nothing.
#[derive(Clone, Copy)]
struct Bounded(u32);

impl ExecutionControl<BabyBear, Counter> for Bounded {
    type Ctx = ();

    fn suspends(&self, _: VmSegmentState<BabyBear, ()>, _: Complex) -> bool {
        true
    }

    fn should_suspend(&self, _: &VmSegmentState<BabyBear, ()>, complex: &Complex) -> bool {
        complex.memory.mem[2][0] >= self.0
    }

    fn begins(&self, _: VmSegmentState<BabyBear, ()>, _: Complex, _: Complex) -> bool {
        true
    }

    fn on_start(&self, _: &VmSegmentState<BabyBear, ()>, _: &mut Complex) {}

    fn finishes(
        &self,
        _: VmSegmentState<BabyBear, ()>,
        _: Option<u32>,
        _: Complex,
        _: Complex,
    ) -> bool {
        true
    }

    fn on_suspend(&self, _: &VmSegmentState<BabyBear, ()>, _: &mut Complex) {}

    fn on_terminate(&self, _: &VmSegmentState<BabyBear, ()>, _: &mut Complex, _: u32) {}

    fn carries_out(
        &self,
        _: (VmSegmentState<BabyBear, ()>, Complex),
        _: (VmSegmentState<BabyBear, ()>, Complex),
        _: Instruction<BabyBear>,
        _: Option<ExecutionError>,
    ) -> bool {
        true
    }

    fn execute_instruction(
        &self,
        state: &mut VmSegmentState<BabyBear, ()>,
        _: &Instruction<BabyBear>,
        complex: &mut Complex,
    ) -> Result<(), ExecutionError> {
        let [n] = complex.memory.read::<u8, 1>(2, 0);
        complex.memory.write::<u8, 1>(2, 0, [n + 2]);
        state.pc += 4;
        Ok(())
    }

    fn notes_panic(&self, _: u32, _: Option<u64>, _: Complex, _: Complex) -> bool {
        true
    }

    fn on_debug_panic(&self, _: u32, _: Option<u64>, _: &mut Complex) {}
}

#[test]
fn a_control_decides_by_the_chips_when_to_suspend() {
    let run = |continuation_enabled: bool, bound: u32| {
        let complex = segment_executor(continuation_enabled).chip_complex;
        let mut executor = VmSegmentExecutor::new(complex, vec![], Bounded(bound));
        let mut state: VmSegmentState<BabyBear, ()> =
            VmSegmentState::new(0, 8, None, Streams::default(), StdRng::seed_from_u64(0), ());
        assert_eq!(executor.execute_from_state(&mut state), Ok(()));
        assert!(executor.chip_complex.begin.is_none() && executor.chip_complex.end.is_none());
        (state.instret, executor.chip_complex.memory.mem[2][0], state.exit_code)
    };
    assert_eq!(run(true, 3), (2, 4, Ok(None)));
    assert_eq!(run(true, 0), (0, 0, Ok(None)));
    assert_eq!(run(true, 100), (6, 10, Ok(Some(0))));
    assert_eq!(run(false, 3), (6, 10, Ok(Some(0))));
}

#[test]
fn heights_can_be_overridden() {
    let heights = VmComplexTraceHeights {
        system: SystemTraceHeights { memory: vec![3] },
        inventory: VmInventoryTraceHeights { chips: vec![(ChipId::Periphery(2), 5)] },
    };
    let mut executor = segment_executor(true);
    executor.set_override_trace_heights(heights.clone());
    assert_eq!(executor.chip_complex.overridden_system.unwrap().memory, vec![3]);
    assert_eq!(
        executor.chip_complex.overridden_inventory.unwrap().chips,
        vec![(ChipId::Periphery(2), 5)]
    );
    let mut vm = VmExecutor::new(config(true));
    assert!(vm.overridden_heights.is_none());
    vm.set_override_trace_heights(heights);
    assert!(vm.overridden_heights.is_some());
}

#[test]
fn inputs_of_proofs_are_generated() {
    let executor = VmExecutor::new(config(true));
    let segments = [segment(0, 2), segment(2, 4)];
    let generate = |i: usize, s: TracegenSegment<BabyBear, Counter>| {
        Ok::<_, GenerationError>((i, s.chip_complex.end.unwrap().pc))
    };
    let result = executor
        .execute_and_generate(&exe(&PROGRAM), Streams::default(), &segments, generate)
        .unwrap();
    assert_eq!(result.per_segment, vec![(0, 16), (1, 28)]);
    assert_eq!(result.final_memory.unwrap().mem[2][0], 5);
    let committed = VmCommittedExe { exe: exe(&PROGRAM), committed_program: 33u32 };
    let cached = |i: usize, _: TracegenSegment<BabyBear, Counter>, program: &u32| {
        Ok::<_, GenerationError>(i as u32 + program)
    };
    let result = executor
        .execute_and_generate_with_cached_program(
            &committed,
            Streams::default(),
            &segments,
            cached,
        )
        .unwrap();
    assert_eq!(result.per_segment, vec![33, 34]);
    let refuse = |i: usize, _: TracegenSegment<BabyBear, Counter>| {
        if i == 1 {
            Err(GenerationError::TraceHeightsLimitExceeded)
        } else {
            Ok(())
        }
    };
    let refused =
        executor.execute_and_generate(&exe(&PROGRAM), Streams::default(), &segments, refuse);
    assert_eq!(refused.err(), Some(GenerationError::TraceHeightsLimitExceeded));
    let failed = executor.execute_and_generate(
        &exe(&[(1, 1)]),
        Streams::default(),
        &segments,
        generate,
    );
    assert_eq!(failed.err(), Some(GenerationError::from(ExecutionError::Fail { pc: 8 })));
}

#[test]
fn proof_inputs_get_chips_and_constraints() {
    let constraint = LinearConstraint { coefficients: vec![1], threshold: 9 };
    let mut executor = segment_executor(true);
    executor.trace_height_constraints = vec![constraint];
    let input = executor.generate_proof_input(
        Some(5u8),
        |c: VmChipComplex<BabyBear, Counter>, cached: Option<u8>, k: &Vec<LinearConstraint>| {
            Ok((c.num_access_adapters, cached, k[0].threshold))
        },
    );
    assert_eq!(input.unwrap(), (1, Some(5), 9));
}

/// Takes its script from the program: where it starts says how it ends, and every instruction is
/// the length of a segment.
struct Scripted {
    exit_code: Result<Option<u32>, ExecutionError>,
    segments: Vec<Segment>,
    accesses: Vec<(u32, u32, bool, bool)>,
    expected: MeterLimits,
}

impl Interpreter<BabyBear, CounterConfig> for Scripted {
    fn new(config: &CounterConfig, exe: VmExe<BabyBear>) -> Self {
        let exit_code = match exe.pc_start {
            FAILS => Err(ExecutionError::Fail { pc: 4 }),
            SUSPENDS => Ok(None),
            code => Ok(Some(code)),
        };
        let mut segments: Vec<Segment> = vec![];
        for line in &exe.program.instructions_and_debug_infos {
            let start = segments.last().map_or(0, |s| s.instret_start + s.num_insns);
            segments.push(segment(start, line.as_ref().unwrap().0.opcode.index as u64));
        }
        let accesses = vec![
            (1, 4, false, false), (1, 4, false, false), (1, 4, true, true), (1, 8, true, false),
            (2, 0, true, true), (2, 0, false, false), (2, 8, true, false),
        ];
        let expected = if config.system.continuation_enabled { PLANNED } else { UNPLANNED };
        Scripted { exit_code, segments, accesses, expected }
    }

    fn execute(
        &self,
        ctx: E1Ctx,
        inputs: Streams<BabyBear>,
    ) -> Result<VmSegmentState<BabyBear, E1Ctx>, ExecutionError> {
        self.exit_code?;
        let memory = Some(GuestMemory::new(AddressMap::new(&vec![0, 64, 64])));
        let mut state =
            VmSegmentState::new(7, 12, memory, inputs, StdRng::seed_from_u64(3), ctx);
        for &(address_space, ptr, is_load_store, is_write) in &self.accesses {
            match (is_load_store, is_write) {
                (false, false) => drop(state.vm_read::<u8, 1>(address_space, ptr)),
                (false, true) => state.vm_write::<u8, 1>(address_space, ptr, &[1]),
                (true, false) => drop(state.vm_read_from_loadstore::<u8, 1>(address_space, ptr)),
                (true, true) => state.vm_write_from_loadstore::<u8, 1>(address_space, ptr, &[2]),
            }
        }
        Ok(state)
    }

    fn execute_e2<X>(
        &self,
        chip_complex: &VmChipComplex<BabyBear, X>,
        interactions: &[usize],
        limits: MeterLimits,
        _inputs: Streams<BabyBear>,
    ) -> Result<MeteredOutcome, ExecutionError> {
        assert_eq!(limits, self.expected);
        assert_eq!(interactions, &[4, 5]);
        assert_eq!(chip_complex.num_access_adapters, 1);
        Ok(MeteredOutcome { exit_code: self.exit_code, segments: self.segments.clone() })
    }
}

const FAILS: u32 = 1000;

const SUSPENDS: u32 = 1001;

fn script(pc_start: u32, segments: &[usize]) -> VmExe<BabyBear> {
    let lines: Vec<(usize, u32)> = segments.iter().map(|&n| (n, 0)).collect();
    VmExe { pc_start, ..exe(&lines) }
}

const PLANNED: MeterLimits = MeterLimits {
    max_trace_height: Some(1 << 20),
    max_cells: Some(77),
    segment_check_insns: None,
};

const UNPLANNED: MeterLimits =
    MeterLimits { max_trace_height: None, max_cells: None, segment_check_insns: Some(u64::MAX) };

#[test]
fn plain_execution_reports_accesses() {
    let executor = VmExecutor::new(config(true));
    let (state, report) = executor
        .execute_e1::<Scripted>(script(SUSPENDS, &[]), Streams::default(), Some(9))
        .unwrap();
    assert_eq!((state.instret, state.pc), (7, 12));
    assert_eq!((state.memory.mem[1][4], state.memory.mem[2][0]), (2, 2));
    let report = report.unwrap();
    assert_eq!(report.registers.operations, 4);
    assert_eq!((report.registers.reads, report.registers.writes), (3, 1));
    assert_eq!(report.memory.operations, 3);
    assert_eq!((report.memory.reads, report.memory.writes), (2, 1));
    assert_eq!(report.loadstore_register_operations, 2);
    assert_eq!(report.loadstore_memory_operations, 2);
    let mut per_register = report.per_register;
    per_register.sort_by_key(|e| (e.0, e.1 == MemOp::Write));
    assert_eq!(
        per_register,
        vec![(4, MemOp::Read, 2), (4, MemOp::Write, 1), (8, MemOp::Read, 1)]
    );
    let mut per_register = report.per_register_loadstore;
    per_register.sort_by_key(|e| (e.0, e.1 == MemOp::Write));
    assert_eq!(per_register, vec![(4, MemOp::Write, 1), (8, MemOp::Read, 1)]);
    let failed = executor.execute_e1::<Scripted>(script(FAILS, &[]), Streams::default(), None);
    assert_eq!(failed.err(), Some(ExecutionError::Fail { pc: 4 }));
}

#[test]
fn plain_execution_stops_where_told() {
    let stops = |end: Option<u64>, instret: u64| {
        let mut state: VmSegmentState<BabyBear, E1Ctx> = VmSegmentState::new(
            instret, 0, None, Streams::default(), StdRng::seed_from_u64(0), E1Ctx::new(end),
        );
        E1Ctx::should_suspend(&mut state)
    };
    assert!(!stops(Some(5), 4));
    assert!(stops(Some(5), 5));
    assert!(stops(Some(5), 6));
    assert!(!stops(None, 1 << 40));
}

#[test]
fn metered_execution_finds_segments() {
    let executor = VmExecutor::new(config(true));
    let metered = |exit: u32| {
        executor.execute_metered::<Scripted>(script(exit, &[3, 5]), Streams::default(), &[4, 5])
    };
    let segments = metered(0).unwrap();
    assert_eq!((segments[0].num_insns, segments[1].num_insns), (3, 5));
    assert_eq!((segments.len(), segments[1].instret_start), (2, 3));
    assert_eq!(metered(SUSPENDS).err(), Some(ExecutionError::DidNotTerminate));
    assert_eq!(metered(2).err(), Some(ExecutionError::FailedWithExitCode(2)));
    assert_eq!(metered(FAILS).err(), Some(ExecutionError::Fail { pc: 4 }));
    let machine = VirtualMachine::new(Engine, config(true));
    let segments =
        machine.execute_metered::<Scripted>(script(0, &[7]), Streams::default(), &[4, 5]).unwrap();
    assert_eq!((segments.len(), segments[0].num_insns), (1, 7));
}

#[test]
fn single_segments_are_metered() {
    let executor = SingleSegmentVmExecutor::new(config(false));
    let metered = |segments: &[usize]| {
        executor
            .execute_metered::<Scripted>(script(0, segments), Streams::default(), &[4, 5])
            .unwrap()
    };
    assert_eq!(metered(&[3]), Some(vec![1, 2, 3, 4, 5, 6, 7, 8]));
    assert_eq!(metered(&[]), None);
    assert_eq!(metered(&[3, 1]), None);
}

struct Measure;

impl TraceMeasure<BabyBear, Counter> for Measure {
    fn finalize_memory(
        &self,
        complex: VmChipComplex<BabyBear, Counter>,
    ) -> VmChipComplex<BabyBear, Counter> {
        VmChipComplex { memory_num_airs: 21, ..complex }
    }

    fn current_trace_heights(&self, complex: &VmChipComplex<BabyBear, Counter>) -> Vec<usize> {
        vec![complex.memory_num_airs, complex.memory.mem[2][0] as usize]
    }

    fn get_internal_trace_heights(
        &self,
        complex: &VmChipComplex<BabyBear, Counter>,
    ) -> VmComplexTraceHeights {
        VmComplexTraceHeights {
            system: SystemTraceHeights { memory: complex.executor_heights.clone() },
            inventory: VmInventoryTraceHeights { chips: vec![] },
        }
    }

    fn get_custom_public_values(
        &self,
        _complex: &VmChipComplex<BabyBear, Counter>,
    ) -> Vec<Option<BabyBear>> {
        vec![None, Some(BabyBear::one())]
    }
}

#[test]
fn single_segments_are_measured() {
    let executor = SingleSegmentVmExecutor::new(config(false));
    let heights = [1, 1, 1, 1, 1, 3, 3, 3];
    let result = executor
        .execute_and_compute_heights(&exe(&PROGRAM), Streams::default(), &heights, &Measure)
        .unwrap();
    assert_eq!(result.air_heights, vec![21, 5]);
    assert_eq!(result.vm_heights.system.memory, vec![0, 4]);
    assert_eq!(result.public_values.len(), 2);
    let mut without = config(false);
    without.system.num_public_values = 0;
    let executor = SingleSegmentVmExecutor::new(without);
    let result = executor
        .execute_and_compute_heights(&exe(&PROGRAM), Streams::default(), &heights, &Measure)
        .unwrap();
    assert!(result.public_values.is_empty());
    let failed = executor.execute_and_compute_heights(
        &exe(&[(1, 1)]),
        Streams::default(),
        &heights,
        &Measure,
    );
    assert_eq!(failed.err(), Some(ExecutionError::Fail { pc: 8 }));
}

#[test]
fn single_segments_generate_an_input() {
    let overridden = VmComplexTraceHeights {
        system: SystemTraceHeights { memory: vec![6] },
        inventory: VmInventoryTraceHeights { chips: vec![] },
    };
    let executor =
        SingleSegmentVmExecutor::new_with_overridden_trace_heights(config(false), Some(overridden));
    let generate = |s: TracegenSegment<BabyBear, Counter>, program: &u8| {
        let complex = s.chip_complex;
        let heights = complex.overridden_system.unwrap().memory[0];
        Ok::<_, GenerationError>((heights, complex.initial_memory.is_none(), *program))
    };
    let committed = VmCommittedExe { exe: exe(&PROGRAM), committed_program: 4u8 };
    let heights = [1; 8];
    let input =
        executor.execute_and_generate(&committed, Streams::default(), &heights, generate).unwrap();
    assert_eq!(input, (6, true, 4));
    let committed = VmCommittedExe { exe: exe(&[(99, 0)]), committed_program: 4u8 };
    let failed =
        executor.execute_and_generate(&committed, Streams::default(), &heights, generate).err();
    assert!(matches!(failed, Some(GenerationError::Execution(_))));
}

struct Engine;

impl ProofVerifier for Engine {
    type VerifyingKey = u32;
    type Proof = u32;
    type Error = u8;

    fn verify(&self, vk: &u32, proof: &u32) -> Result<(), u8> {
        if vk == proof {
            Ok(())
        } else {
            Err(6)
        }
    }
}

impl ProofEngine<BabyBear> for Engine {
    type ProvingKey = usize;
    type ProofInput = u32;
    type Commitment = usize;

    fn generate_pk<X>(&self, complex: &VmChipComplex<BabyBear, X>) -> usize {
        complex.insertion_order.len()
    }

    fn prove(&self, pk: &usize, proof_input: u32) -> u32 {
        proof_input * 10 + *pk as u32
    }

    fn commit(&self, program: &Program<BabyBear>) -> usize {
        program.instructions_and_debug_infos.len()
    }
}

#[test]
fn a_machine_proves_its_segments_in_order() {
    let mut machine = VirtualMachine::new(Engine, config(true));
    machine.set_trace_height_constraints(vec![]);
    assert!(machine.config().system.continuation_enabled);
    let pk = machine.keygen();
    assert_eq!(pk, 4);
    let committed = machine.commit_exe(exe(&PROGRAM));
    assert_eq!(committed.committed_program, 6);
    let segments = [segment(0, 2), segment(2, 4)];
    let generate = |i: usize, s: TracegenSegment<BabyBear, Counter>| {
        Ok::<_, GenerationError>(s.chip_complex.end.unwrap().pc + i as u32)
    };
    let result = machine
        .execute_and_generate(&committed.exe, Streams::default(), &segments, generate)
        .unwrap();
    assert_eq!(machine.prove(&pk, result), vec![164, 294]);
    assert_eq!(machine.prove_single(&pk, 2), 24);
    let memory = machine.execute(&committed.exe, Streams::default(), &segments).unwrap();
    assert_eq!(memory.unwrap().mem[2][0], 5);
    assert_eq!(verify_single(&machine.engine, &3, &3), Ok(()));
    assert_eq!(verify_single(&machine.engine, &3, &4), Err(6));
}

#[test]
fn verification_depends_on_continuations() {
    let commit = |x: [BabyBear; 8], _: [BabyBear; 8], _: BabyBear| x;
    let proof = |proof| SegmentProof::<BabyBear, u32> {
        proof,
        statement: Statement {
            main_trace: vec![],
            per_air: vec![AirProofData { air_id: 5, public_values: vec![] }],
        },
    };
    let single = VirtualMachine::new(Engine, config(false));
    let r: Result<(), VmVerificationError<u8, u8>> = single.verify(&3, vec![proof(3)], commit);
    assert!(r.is_ok());
    let r: Result<(), VmVerificationError<u8, u8>> = single.verify(&3, vec![proof(4)], commit);
    assert!(matches!(r, Err(VmVerificationError::StarkError(6))));
    let machine = VirtualMachine::new(Engine, config(true));
    let r: Result<(), VmVerificationError<u8, u8>> = machine.verify(&3, vec![proof(3)], commit);
    assert!(matches!(r, Err(VmVerificationError::SystemAirMissing { air_id: 0 })));
    let r: Result<(), VmVerificationError<u8, u8>> = machine.verify(&3, vec![proof(4)], commit);
    assert!(matches!(r, Err(VmVerificationError::StarkError(6))));
    let r: Result<(), VmVerificationError<u8, u8>> = machine.verify(&3, vec![], commit);
    assert!(matches!(r, Err(VmVerificationError::ProofNotFound)));
}
