//! Where the instructions of a program are found.
use crate::arch::error::ExecutionError;
use crate::arch::vm::exe::{DebugInfo, Program};
use crate::instructions::Instruction;
use vstd::arithmetic::div_mod::*;
use vstd::prelude::*;

verus! {

/// The program counter lies in the `index`-th step from the base of the program on.
pub open spec fn in_step<F: Copy>(program: Program<F>, pc: u32, index: int) -> bool {
    &&& 0 <= index
    &&& program.pc_base + index * program.step <= pc
    &&& pc < program.pc_base + (index + 1) * program.step
}

/// The instruction of the `index`-th place of a program.
pub open spec fn placed_at<F: Copy>(program: Program<F>, index: int, instruction: Instruction<
    F,
>) -> bool {
    &&& 0 <= index < program.instructions_and_debug_infos@.len()
    &&& program.instructions_and_debug_infos@[index] matches Some(entry) && entry.0 == instruction
}

/// The instruction is that at the program counter.
pub open spec fn stands_at<F: Copy>(program: Program<F>, pc: u32, instruction: Instruction<F>) -> bool {
    exists|index: int| #[trigger] in_step(program, pc, index) && placed_at(program, index, instruction)
}

/// A program counter lies in one step.
pub proof fn lemma_in_step<F: Copy>(program: Program<F>, pc: u32, index: int)
    requires
        program.step > 0,
        in_step(program, pc, index),
    ensures
        (pc - program.pc_base) / program.step as int == index,
        pc >= program.pc_base,
{
    let d = pc - program.pc_base;
    let r = d - index * program.step;
    assert(0 <= r < program.step) by (nonlinear_arith)
        requires
            r == d - index * program.step,
            index * program.step <= d < (index + 1) * program.step,
    ;
    assert(index * program.step == program.step * index) by (nonlinear_arith);
    assert(0 <= index * program.step) by (nonlinear_arith)
        requires
            0 <= index,
            0 <= program.step,
    ;
    lemma_fundamental_div_mod_converse(d, program.step as int, index, r);
}

/// Every program counter from the base on lies in some step.
pub proof fn lemma_step_exists<F: Copy>(program: Program<F>, pc: u32) -> (index: int)
    requires
        program.step > 0,
        pc >= program.pc_base,
    ensures
        in_step(program, pc, index),
{
    let d = pc - program.pc_base;
    let step = program.step as int;
    let index = d / step;
    lemma_fundamental_div_mod(d, step);
    lemma_mod_bound(d, step);
    lemma_div_pos_is_pos(d, step);
    assert(index * step == step * index && (index + 1) * step == step * index + step)
        by (nonlinear_arith);
    index
}

/// The instruction at a program counter is the one whose step the program counter lies in. Before
/// the base and after the last place the program counter is out of bounds; at a gap there is none.
pub proof fn law_get_instruction<F: Copy>(
    program: Program<F>,
    pc: u32,
    index: int,
    r: Result<Instruction<F>, ExecutionError>,
)
    requires
        program.step > 0,
        pc < program.pc_base || in_step(program, pc, index),
        call_ensures(Program::<F>::get_instruction, (&program, pc), r),
    ensures
        ({
            let entries = program.instructions_and_debug_infos@;
            let n = program.instructions_and_debug_infos@.len();
            let (step, pc_base) = (program.step, program.pc_base);
            &&& pc < pc_base || index >= n ==> r == Err::<Instruction<F>, ExecutionError>(
                ExecutionError::PcOutOfBounds { pc, step, pc_base, program_len: n as usize },
            )
            &&& pc >= pc_base && index < n && entries[index] is None ==> r == Err::<
                Instruction<F>,
                ExecutionError,
            >(ExecutionError::PcNotFound { pc, step, pc_base, program_len: n as usize })
            &&& pc >= pc_base && index < n ==> (entries[index] matches Some(entry) ==> r == Ok::<
                Instruction<F>,
                ExecutionError,
            >(entry.0))
        }),
{
    if pc >= program.pc_base {
        lemma_in_step(program, pc, index);
    }
}

/// The backtrace of the instruction at a program counter is that of its debug information, if it
/// has both.
pub proof fn law_trace<F: Copy>(program: Program<F>, pc: u32, index: int, r: Option<u64>)
    requires
        program.step > 0,
        pc < program.pc_base || in_step(program, pc, index),
        call_ensures(Program::<F>::trace, (&program, pc), r),
    ensures
        ({
            let entries = program.instructions_and_debug_infos@;
            &&& pc < program.pc_base || index >= entries.len() ==> r is None
            &&& pc >= program.pc_base && index < entries.len() ==> match entries[index] {
                Some(entry) => match entry.1 {
                    Some(info) => r == info.trace,
                    None => r is None,
                },
                None => r is None,
            }
        }),
{
    if pc >= program.pc_base {
        lemma_in_step(program, pc, index);
    }
}

/// Without its debug information a program has the same instructions at the same program counters,
/// and no backtraces.
pub proof fn law_stripped_program<F: Copy>(
    program: Program<F>,
    stripped: Program<F>,
    pc: u32,
    r: Result<Instruction<F>, ExecutionError>,
    s: Result<Instruction<F>, ExecutionError>,
    trace: Option<u64>,
)
    requires
        program.step > 0,
        call_ensures(Program::<F>::strip_debug_infos, (program,), stripped),
        call_ensures(Program::<F>::get_instruction, (&program, pc), r),
        call_ensures(Program::<F>::get_instruction, (&stripped, pc), s),
        call_ensures(Program::<F>::trace, (&stripped, pc), trace),
    ensures
        s == r,
        trace is None,
        stripped.step == program.step,
        stripped.pc_base == program.pc_base,
        stripped.instructions_and_debug_infos@.len() == program.instructions_and_debug_infos@.len(),
        forall|i: int|
            0 <= i < program.instructions_and_debug_infos@.len() ==> match (
            #[trigger] program.instructions_and_debug_infos@[i]) {
                Some(entry) => stripped.instructions_and_debug_infos@[i] matches Some(kept)
                    && kept.0 == entry.0 && kept.1 is None,
                None => stripped.instructions_and_debug_infos@[i] is None,
            },
{
    let entries = program.instructions_and_debug_infos@;
    let kept = stripped.instructions_and_debug_infos@;
    assert(kept.len() == entries.len());
    assert forall|i: int| 0 <= i < entries.len() implies match (#[trigger] entries[i]) {
        Some(entry) => kept[i] matches Some(k) && k.0 == entry.0 && k.1 is None,
        None => kept[i] is None,
    } by {
        assert(kept[i] == crate::arch::vm::exe::stripped(entries[i]));
    }
    if pc >= program.pc_base {
        let index = lemma_step_exists(program, pc);
        lemma_in_step(program, pc, index);
        if index < entries.len() {
            assert(kept[index] == crate::arch::vm::exe::stripped(entries[index]));
        }
    }
}

/// A clone of a program is the same program.
pub proof fn law_program_clone<F: Copy>(program: Program<F>, r: Program<F>)
    requires
        call_ensures(<Program<F> as Clone>::clone, (&program,), r),
    ensures
        r.instructions_and_debug_infos@ == program.instructions_and_debug_infos@,
        r.step == program.step,
        r.pc_base == program.pc_base,
{
}

/// At every program counter an empty program has no instruction.
pub proof fn law_empty_program<F: Copy>(
    program: Program<F>,
    pc: u32,
    r: Result<Instruction<F>, ExecutionError>,
)
    requires
        call_ensures(Program::<F>::empty, (), program),
        call_ensures(Program::<F>::get_instruction, (&program, pc), r),
    ensures
        r is Err,
        program.step == 4,
        program.pc_base == 0,
{
    assert(pc as int / 4 >= 0);
}

/// A copy of what is known of an instruction is the same.
pub proof fn law_debug_info_clone(info: DebugInfo, r: DebugInfo)
    requires
        call_ensures(<DebugInfo as Clone>::clone, (&info,), r),
    ensures
        r.dsl_instruction@ == info.dsl_instruction@,
        r.trace == info.trace,
{
}

} // verus!
