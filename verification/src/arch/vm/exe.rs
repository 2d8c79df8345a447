//! Programs.
use crate::arch::error::ExecutionError;
use crate::instructions::{Instruction, DEFAULT_PC_STEP};
use crate::system::memory::SparseMemoryImage;
use vstd::prelude::*;

verus! {

/// Where an instruction comes from.
#[derive(Debug)]
pub struct DebugInfo {
    pub dsl_instruction: String,
    /// The number of the backtrace of the place where the instruction was made, if one was taken.
    pub trace: Option<u64>,
}

impl Clone for DebugInfo {
    fn clone(&self) -> (r: Self)
        ensures
            r == *self,
    {
        DebugInfo { dsl_instruction: self.dsl_instruction.clone(), trace: self.trace }
    }
}

/// A place of a program: an instruction with what is known of it, or a gap.
pub type Entry<F> = Option<(Instruction<F>, Option<DebugInfo>)>;

/// A sequence of instructions, with gaps.
#[derive(Debug)]
pub struct Program<F> {
    pub instructions_and_debug_infos: Vec<Entry<F>>,
    /// The distance between consecutive instructions.
    pub step: u32,
    /// The program counter of the first instruction.
    pub pc_base: u32,
}

/// The same entry without debug information.
pub open spec fn stripped<F>(entry: Entry<F>) -> Entry<F> {
    match entry {
        Some((instruction, _)) => Some((instruction, None)),
        None => None,
    }
}

/// The same entries without debug information.
pub open spec fn all_stripped<F>(entries: Seq<Entry<F>>) -> Seq<Entry<F>> {
    entries.map_values(|e: Entry<F>| stripped(e))
}

impl<F: Copy> Program<F> {
    /// The program has no instructions.
    pub open spec fn is_empty(&self) -> bool {
        &&& self.instructions_and_debug_infos@.len() == 0
        &&& self.step == DEFAULT_PC_STEP
        &&& self.pc_base == 0
    }

    /// A program without instructions.
    pub fn empty() -> (r: Self)
        ensures
            r.is_empty(),
    {
        Program { instructions_and_debug_infos: Vec::new(), step: DEFAULT_PC_STEP, pc_base: 0 }
    }

    /// The instruction at a program counter, or why there is none.
    pub open spec fn spec_get_instruction(&self, pc: u32) -> Result<Instruction<F>, ExecutionError> {
        let entries = self.instructions_and_debug_infos@;
        let index = (pc - self.pc_base) / self.step as int;
        let program_len = entries.len() as usize;
        if pc < self.pc_base || index >= entries.len() {
            Err(
                ExecutionError::PcOutOfBounds {
                    pc,
                    step: self.step,
                    pc_base: self.pc_base,
                    program_len,
                },
            )
        } else {
            match entries[index] {
                Some((instruction, _)) => Ok(instruction),
                None => Err(
                    ExecutionError::PcNotFound {
                        pc,
                        step: self.step,
                        pc_base: self.pc_base,
                        program_len,
                    },
                ),
            }
        }
    }

    /// The instruction at a program counter.
    pub fn get_instruction(&self, pc: u32) -> (r: Result<Instruction<F>, ExecutionError>)
        requires
            self.step > 0,
        ensures
            r == self.spec_get_instruction(pc),
    {
        let program_len = self.instructions_and_debug_infos.len();
        assert(program_len == self.instructions_and_debug_infos@.len());
        let (step, pc_base) = (self.step, self.pc_base);
        if pc < pc_base {
            return Err(ExecutionError::PcOutOfBounds { pc, step, pc_base, program_len });
        }
        let index = ((pc - pc_base) / step) as usize;
        if index >= program_len {
            return Err(ExecutionError::PcOutOfBounds { pc, step, pc_base, program_len });
        }
        match &self.instructions_and_debug_infos[index] {
            Some((instruction, _)) => Ok(*instruction),
            None => Err(ExecutionError::PcNotFound { pc, step, pc_base, program_len }),
        }
    }

    /// The number of the backtrace of the instruction at a program counter, if there is one.
    pub open spec fn spec_trace(&self, pc: u32) -> Option<u64> {
        let entries = self.instructions_and_debug_infos@;
        let index = (pc - self.pc_base) / self.step as int;
        if pc < self.pc_base || index >= entries.len() {
            None
        } else {
            match entries[index] {
                Some((_, Some(info))) => info.trace,
                _ => None,
            }
        }
    }

    /// The number of the backtrace of the instruction at a program counter.
    pub fn trace(&self, pc: u32) -> (r: Option<u64>)
        requires
            self.step > 0,
        ensures
            r == self.spec_trace(pc),
    {
        if pc < self.pc_base {
            return None;
        }
        let index = ((pc - self.pc_base) / self.step) as usize;
        assert(self.instructions_and_debug_infos.len()
            == self.instructions_and_debug_infos@.len());
        if index >= self.instructions_and_debug_infos.len() {
            return None;
        }
        match &self.instructions_and_debug_infos[index] {
            Some((_, Some(info))) => info.trace,
            _ => None,
        }
    }

    /// The programs have the same instructions at the same places.
    pub open spec fn same(&self, other: &Self) -> bool {
        &&& self.instructions_and_debug_infos@ == other.instructions_and_debug_infos@
        &&& self.step == other.step
        &&& self.pc_base == other.pc_base
    }

    /// The program is `other` without debug information.
    pub open spec fn is_stripped(&self, other: &Self) -> bool {
        &&& self.instructions_and_debug_infos@ == all_stripped(other.instructions_and_debug_infos@)
        &&& self.step == other.step
        &&& self.pc_base == other.pc_base
    }

    /// The same program without debug information.
    pub fn strip_debug_infos(self) -> (r: Self)
        ensures
            r.is_stripped(&self),
    {
        let mut entries: Vec<Entry<F>> = Vec::new();
        for i in 0..self.instructions_and_debug_infos.len()
            invariant
                entries@ == all_stripped(self.instructions_and_debug_infos@.take(i as int)),
        {
            let entry = match &self.instructions_and_debug_infos[i] {
                Some((instruction, _)) => Some((*instruction, None)),
                None => None,
            };
            entries.push(entry);
            assert(entries@ =~= all_stripped(self.instructions_and_debug_infos@.take(i + 1)));
        }
        assert(self.instructions_and_debug_infos@.take(
            self.instructions_and_debug_infos@.len() as int,
        ) =~= self.instructions_and_debug_infos@);
        Program { instructions_and_debug_infos: entries, step: self.step, pc_base: self.pc_base }
    }
}

impl<F: Copy> Clone for Program<F> {
    fn clone(&self) -> (r: Self)
        ensures
            r.same(self),
    {
        let mut entries: Vec<Entry<F>> = Vec::new();
        for i in 0..self.instructions_and_debug_infos.len()
            invariant
                entries@ == self.instructions_and_debug_infos@.take(i as int),
        {
            let entry = match &self.instructions_and_debug_infos[i] {
                Some((instruction, Some(info))) => Some((*instruction, Some(info.clone()))),
                Some((instruction, None)) => Some((*instruction, None)),
                None => None,
            };
            entries.push(entry);
            assert(entries@ =~= self.instructions_and_debug_infos@.take(i + 1));
        }
        assert(entries@ =~= self.instructions_and_debug_infos@);
        Program { instructions_and_debug_infos: entries, step: self.step, pc_base: self.pc_base }
    }
}

/// A program with its initial memory.
#[derive(Debug)]
pub struct VmExe<F> {
    pub program: Program<F>,
    pub pc_start: u32,
    pub init_memory: SparseMemoryImage,
}

} // verus!
