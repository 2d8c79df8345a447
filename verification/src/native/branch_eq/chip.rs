//! Trace generation for the branch chip.
use crate::field::number_theory::{finv, fsub, lemma_red_zero_small, red};
use crate::field::PrimeField32;
use crate::instructions::{BranchEqualOpcode, Instruction};
use vstd::prelude::*;

verus! {

/// An equality branch on field elements.
#[derive(Clone, Copy, Debug, PartialEq, Eq, Structural)]
pub struct NativeBranchEqualOpcode(pub BranchEqualOpcode);

impl NativeBranchEqualOpcode {
    pub open spec fn spec_name(self) -> Seq<char> {
        match self.0 {
            BranchEqualOpcode::BEQ => "NativeBranchEqualOpcode(BEQ)"@,
            BranchEqualOpcode::BNE => "NativeBranchEqualOpcode(BNE)"@,
        }
    }

    pub fn name(self) -> (r: String)
        ensures
            r@ == self.spec_name(),
    {
        match self.0 {
            BranchEqualOpcode::BEQ => "NativeBranchEqualOpcode(BEQ)".to_string(),
            BranchEqualOpcode::BNE => "NativeBranchEqualOpcode(BNE)".to_string(),
        }
    }
}

/// Whether a branch is taken on `x` and `y`.
pub open spec fn branch_taken(is_beq: bool, x: int, y: int) -> bool {
    (x == y) == is_beq
}

/// Returns whether the branch is taken, and the inverse of the difference, zero if there is none.
pub fn run_eq<F: PrimeField32>(is_beq: bool, x: F, y: F) -> (r: (bool, F))
    ensures
        r.0 == branch_taken(is_beq, x.val(), y.val()),
        r.1.val() == (if x.val() == y.val() {
            0
        } else {
            finv(F::order(), red(x.val() - y.val(), F::order()))
        }),
{
    if !x.equals(y) {
        proof {
            reveal(fsub);
            x.val_is_canonical();
            y.val_is_canonical();
            if red(x.val() - y.val(), F::order()) == 0 {
                lemma_red_zero_small(x.val() - y.val(), F::order());
            }
        }
        return (!is_beq, x.sub(y).inverse());
    }
    (is_beq, F::zero())
}

/// The columns of one row of an equality branch on numbers of `NUM_LIMBS` limbs.
pub struct BranchEqualCoreCols<T, const NUM_LIMBS: usize> {
    pub a: [T; NUM_LIMBS],
    pub b: [T; NUM_LIMBS],
    /// Whether the branch is taken.
    pub cmp_result: T,
    pub imm: T,
    pub opcode_beq_flag: T,
    pub opcode_bne_flag: T,
    /// The inverse of a difference, where there is one.
    pub diff_inv_marker: [T; NUM_LIMBS],
}

/// The canonical values of one row.
pub ghost struct NativeBranchEqualRow {
    pub a: int,
    pub b: int,
    pub taken: int,
    pub imm: int,
    pub beq: int,
    pub bne: int,
    pub diff_inv: int,
}

impl<F: PrimeField32> BranchEqualCoreCols<F, 1> {
    pub open spec fn row(&self) -> NativeBranchEqualRow {
        NativeBranchEqualRow {
            a: self.a[0].val(),
            b: self.b[0].val(),
            taken: self.cmp_result.val(),
            imm: self.imm.val(),
            beq: self.opcode_beq_flag.val(),
            bne: self.opcode_bne_flag.val(),
            diff_inv: self.diff_inv_marker[0].val(),
        }
    }
}

/// What a row is filled from.
#[derive(Clone, Copy, Debug)]
pub struct NativeBranchEqualCoreRecord<F> {
    pub a: F,
    pub b: F,
    pub imm: F,
    pub is_beq: bool,
}

pub struct NativeBranchEqualStep {
    pub offset: usize,
    pub pc_step: u32,
}

impl NativeBranchEqualStep {
    pub fn new(offset: usize, pc_step: u32) -> (r: Self)
        ensures
            r.offset == offset,
            r.pc_step == pc_step,
    {
        NativeBranchEqualStep { offset, pc_step }
    }

    /// The index is that of an opcode of this chip.
    pub open spec fn handles(&self, opcode: usize) -> bool {
        self.offset <= opcode < self.offset + 2
    }

    pub fn get_opcode_name(&self, opcode: usize) -> (r: String)
        requires
            self.handles(opcode),
        ensures
            forall|op: BranchEqualOpcode| #[trigger]
                op.index() == opcode - self.offset ==> r@ == NativeBranchEqualOpcode(
                    op,
                ).spec_name(),
    {
        NativeBranchEqualOpcode(BranchEqualOpcode::from_usize(opcode - self.offset)).name()
    }

    /// Executes an instruction on the operands that the adapter read, and returns the record of
    /// the row. If the branch is taken, the immediate is added to `pc` in the field; otherwise
    /// `pc` moves to the next instruction.
    pub fn execute<F: PrimeField32>(
        &self,
        pc: &mut u32,
        instruction: &Instruction<F>,
        reads: [F; 2],
    ) -> (r: NativeBranchEqualCoreRecord<F>)
        requires
            instruction.opcode.index >= self.offset,
            branch_taken(
                instruction.opcode.index == self.offset,
                reads[0].val(),
                reads[1].val(),
            ) ==> *old(pc) < F::order(),
        ensures
            r.a == reads[0],
            r.b == reads[1],
            r.imm == instruction.c,
            r.is_beq == (instruction.opcode.index == self.offset),
            *final(pc) == (if branch_taken(r.is_beq, r.a.val(), r.b.val()) {
                red(*old(pc) + r.imm.val(), F::order())
            } else {
                (*old(pc) + self.pc_step) % 0x1_0000_0000
            }),
    {
        let record = NativeBranchEqualCoreRecord {
            a: reads[0],
            b: reads[1],
            imm: instruction.c,
            is_beq: instruction.opcode.local_opcode_idx(self.offset) == 0,
        };
        let equal = record.a.equals(record.b);
        if equal == record.is_beq {
            proof {
                reveal(crate::field::number_theory::fadd);
            }
            *pc = F::from_canonical_u32(*pc).add(record.imm).as_canonical_u32();
        } else {
            *pc = pc.wrapping_add(self.pc_step);
        }
        record
    }

    /// Fills a row from its record.
    pub fn fill_trace_row<F: PrimeField32>(&self, record: &NativeBranchEqualCoreRecord<F>) -> (r:
        BranchEqualCoreCols<F, 1>)
        ensures
            r.row() == (NativeBranchEqualRow {
                a: record.a.val(),
                b: record.b.val(),
                taken: if branch_taken(record.is_beq, record.a.val(), record.b.val()) {
                    1
                } else {
                    0
                },
                imm: record.imm.val(),
                beq: if record.is_beq {
                    1
                } else {
                    0
                },
                bne: if record.is_beq {
                    0
                } else {
                    1
                },
                diff_inv: if record.a.val() == record.b.val() {
                    0
                } else {
                    finv(F::order(), red(record.a.val() - record.b.val(), F::order()))
                },
            }),
    {
        let (taken, diff_inv_val) = run_eq(record.is_beq, record.a, record.b);
        BranchEqualCoreCols {
            a: [record.a],
            b: [record.b],
            cmp_result: F::from_bool(taken),
            imm: record.imm,
            opcode_beq_flag: F::from_bool(record.is_beq),
            opcode_bne_flag: F::from_bool(!record.is_beq),
            diff_inv_marker: [diff_inv_val],
        }
    }
}

} // verus!
