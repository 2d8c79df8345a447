//! Trace generation for the arithmetic and logic chip.
use crate::air::{byte_vals, field_bytes, LookupKind, LookupRequest};
use crate::field::PrimeField32;
use crate::instructions::{BaseAluOpcode, Instruction, DEFAULT_PC_STEP};
use crate::limbs::limb_base;
use crate::rv32im::base_alu::arithmetic::{alu_limbs, run_alu, sub_defined};
use crate::rv32im::base_alu::columns::BaseAluCoreCols;
use vstd::prelude::*;

verus! {

/// What a row is filled from.
#[derive(Clone, Copy, Debug)]
pub struct BaseAluCoreRecord<const NUM_LIMBS: usize> {
    pub b: [u8; NUM_LIMBS],
    pub c: [u8; NUM_LIMBS],
    pub local_opcode: u8,
}

impl<const NUM_LIMBS: usize> BaseAluCoreRecord<NUM_LIMBS> {
    /// The record is of the operation `opcode`.
    pub open spec fn is_of(self, opcode: BaseAluOpcode) -> bool {
        self.local_opcode == opcode.index()
    }

    /// The operation is defined on the operands.
    pub open spec fn defined(self, base: int) -> bool {
        &&& self.local_opcode < 5
        &&& self.is_of(BaseAluOpcode::SUB) ==> sub_defined(self.b@, self.c@, base)
    }
}

/// The lookups of an operation on `b` and `c` with result `a`: the operands for a bitwise
/// operation, otherwise the result twice.
pub open spec fn alu_requests(opcode: BaseAluOpcode, a: Seq<u8>, b: Seq<u8>, c: Seq<u8>) -> Seq<
    LookupRequest,
> {
    Seq::new(
        a.len(),
        |i: int|
            if opcode == BaseAluOpcode::ADD || opcode == BaseAluOpcode::SUB {
                LookupRequest { kind: LookupKind::Xor, x: a[i] as u32, y: a[i] as u32 }
            } else {
                LookupRequest { kind: LookupKind::Xor, x: b[i] as u32, y: c[i] as u32 }
            },
    )
}

pub struct BaseAluStep<const NUM_LIMBS: usize, const LIMB_BITS: usize> {
    pub offset: usize,
}

impl<const NUM_LIMBS: usize, const LIMB_BITS: usize> BaseAluStep<NUM_LIMBS, LIMB_BITS> {
    pub fn new(offset: usize) -> (r: Self)
        ensures
            r.offset == offset,
    {
        BaseAluStep { offset }
    }

    /// The index is that of an opcode of this chip.
    pub open spec fn handles(&self, opcode: usize) -> bool {
        self.offset <= opcode < self.offset + 5
    }

    pub fn get_opcode_name(&self, opcode: usize) -> (r: String)
        requires
            self.handles(opcode),
        ensures
            forall|op: BaseAluOpcode|
                op.index() == opcode - self.offset ==> r@ == #[trigger] op.spec_name(),
    {
        BaseAluOpcode::from_usize(opcode - self.offset).name()
    }

    /// Executes an instruction on the operands that the adapter read. Returns what the adapter is
    /// to write and the record of the row; `pc` moves to the next instruction.
    pub fn execute<F>(
        &self,
        pc: &mut u32,
        instruction: &Instruction<F>,
        reads: [[u8; NUM_LIMBS]; 2],
    ) -> (r: ([[u8; NUM_LIMBS]; 1], BaseAluCoreRecord<NUM_LIMBS>))
        requires
            LIMB_BITS <= 8,
            self.handles(instruction.opcode.index),
            instruction.opcode.index - self.offset == BaseAluOpcode::SUB.index() ==> sub_defined(
                reads[0]@,
                reads[1]@,
                limb_base(LIMB_BITS),
            ),
        ensures
            r.1.b == reads[0],
            r.1.c == reads[1],
            r.1.local_opcode == instruction.opcode.index - self.offset,
            forall|op: BaseAluOpcode| #[trigger]
                r.1.is_of(op) ==> r.0[0]@ == alu_limbs(
                    op,
                    reads[0]@,
                    reads[1]@,
                    limb_base(LIMB_BITS),
                ),
            *final(pc) == (*old(pc) + DEFAULT_PC_STEP) % 0x1_0000_0000,
    {
        let local_opcode = BaseAluOpcode::from_usize(
            instruction.opcode.local_opcode_idx(self.offset),
        );
        let rd = run_alu::<NUM_LIMBS, LIMB_BITS>(local_opcode, &reads[0], &reads[1]);
        let record = BaseAluCoreRecord {
            b: reads[0],
            c: reads[1],
            local_opcode: local_opcode.to_u8(),
        };
        *pc = pc.wrapping_add(DEFAULT_PC_STEP);
        ([rd], record)
    }

    /// Fills a row from its record, and lists the lookups that the row sends.
    pub fn fill_trace_row<F: PrimeField32>(&self, record: &BaseAluCoreRecord<NUM_LIMBS>) -> (r: (
        BaseAluCoreCols<F, NUM_LIMBS, LIMB_BITS>,
        Vec<LookupRequest>,
    ))
        requires
            LIMB_BITS <= 8,
            255 < F::order(),
            record.defined(limb_base(LIMB_BITS)),
        ensures
            r.0.row().b == byte_vals(record.b@),
            r.0.row().c == byte_vals(record.c@),
            forall|op: BaseAluOpcode| #[trigger]
                record.is_of(op) ==> ({
                    let a = alu_limbs(op, record.b@, record.c@, limb_base(LIMB_BITS));
                    &&& r.0.row().selects(op)
                    &&& r.0.row().a == byte_vals(a)
                    &&& r.0.row().b == byte_vals(record.b@)
                    &&& r.0.row().c == byte_vals(record.c@)
                    &&& r.1@ == alu_requests(op, a, record.b@, record.c@)
                }),
    {
        let local_opcode = BaseAluOpcode::from_usize(record.local_opcode as usize);
        let a = run_alu::<NUM_LIMBS, LIMB_BITS>(local_opcode, &record.b, &record.c);
        let mut requests: Vec<LookupRequest> = Vec::new();
        let ghost expected = alu_requests(local_opcode, a@, record.b@, record.c@);
        let on_result = local_opcode == BaseAluOpcode::ADD || local_opcode == BaseAluOpcode::SUB;
        for i in 0..NUM_LIMBS
            invariant
                expected == alu_requests(local_opcode, a@, record.b@, record.c@),
                on_result == (local_opcode == BaseAluOpcode::ADD || local_opcode
                    == BaseAluOpcode::SUB),
                requests@ == expected.take(i as int),
        {
            let request = if on_result {
                LookupRequest { kind: LookupKind::Xor, x: a[i] as u32, y: a[i] as u32 }
            } else {
                LookupRequest {
                    kind: LookupKind::Xor,
                    x: record.b[i] as u32,
                    y: record.c[i] as u32,
                }
            };
            requests.push(request);
            assert(requests@ =~= expected.take(i + 1));
        }
        assert(requests@ =~= expected);
        let cols = BaseAluCoreCols {
            a: field_bytes(&a),
            b: field_bytes(&record.b),
            c: field_bytes(&record.c),
            opcode_add_flag: F::from_bool(local_opcode == BaseAluOpcode::ADD),
            opcode_sub_flag: F::from_bool(local_opcode == BaseAluOpcode::SUB),
            opcode_xor_flag: F::from_bool(local_opcode == BaseAluOpcode::XOR),
            opcode_or_flag: F::from_bool(local_opcode == BaseAluOpcode::OR),
            opcode_and_flag: F::from_bool(local_opcode == BaseAluOpcode::AND),
        };
        (cols, requests)
    }
}

} // verus!
