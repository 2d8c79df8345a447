//! Trace generation for the comparison chip.
use crate::air::{array_vals, byte_vals, field_bytes, LookupKind, LookupRequest};
use crate::field::number_theory::{
    lemma_fsub_red, lemma_red_range, lemma_red_small, lemma_red_zero_small, red,
};
use crate::field::PrimeField32;
use crate::instructions::{Instruction, LessThanOpcode, DEFAULT_PC_STEP};
use crate::limbs::{lemma_limb_base, limb_base};
use crate::rv32im::less_than::columns::{LessThanCoreCols, LessThanRow};
use crate::rv32im::less_than::comparison::{
    half_base, is_top_difference, lemma_sign, less_at, run_less_than, sign_set,
};
use vstd::arithmetic::div_mod::*;
use vstd::arithmetic::power2::*;
use vstd::bits::*;
use vstd::prelude::*;

verus! {

/// What a row is filled from.
#[derive(Clone, Copy, Debug)]
pub struct LessThanCoreRecord<const NUM_LIMBS: usize, const LIMB_BITS: usize> {
    pub b: [u8; NUM_LIMBS],
    pub c: [u8; NUM_LIMBS],
    pub local_opcode: u8,
}

impl<const NUM_LIMBS: usize, const LIMB_BITS: usize> LessThanCoreRecord<NUM_LIMBS, LIMB_BITS> {
    /// The record is of the signed comparison.
    pub open spec fn is_slt(self) -> bool {
        self.local_opcode == LessThanOpcode::SLT.index()
    }
}

/// The most significant limb of `x`, less the base if its sign is set.
pub open spec fn msb_of(is_slt: bool, x: Seq<u8>, limb_bits: usize) -> int {
    x[x.len() - 1] - (if sign_set(is_slt, x, limb_bits) {
        limb_base(limb_bits)
    } else {
        0
    })
}

/// The most significant limb of `x` as it is looked up: moved by half the base if signed.
pub open spec fn msb_range_of(is_slt: bool, x: Seq<u8>, limb_bits: usize) -> int {
    msb_of(is_slt, x, limb_bits) + (if is_slt {
        half_base(limb_bits)
    } else {
        0
    })
}

/// The difference of `x` and `y` at `i`, the most significant index at which they differ: `y`
/// minus `x` if `x` is less, otherwise `x` minus `y`.
pub open spec fn diff_of(is_slt: bool, x: Seq<u8>, y: Seq<u8>, limb_bits: usize, i: int) -> int {
    let d = if i == x.len() {
        0
    } else if i == x.len() - 1 {
        msb_of(is_slt, y, limb_bits) - msb_of(is_slt, x, limb_bits)
    } else {
        y[i] - x[i]
    };
    if less_at(is_slt, x, y, limb_bits, i) {
        d
    } else {
        -d
    }
}

/// The row of a comparison of `b` and `c`, where `i` is the most significant index at which they
/// differ.
pub open spec fn less_than_row(
    is_slt: bool,
    b: Seq<u8>,
    c: Seq<u8>,
    limb_bits: usize,
    i: int,
    p: int,
) -> LessThanRow {
    LessThanRow {
        b: byte_vals(b),
        c: byte_vals(c),
        result: if less_at(is_slt, b, c, limb_bits, i) {
            1
        } else {
            0
        },
        slt: if is_slt {
            1
        } else {
            0
        },
        sltu: if is_slt {
            0
        } else {
            1
        },
        b_msb: red(msb_of(is_slt, b, limb_bits), p),
        c_msb: red(msb_of(is_slt, c, limb_bits), p),
        marker: Seq::new(
            b.len(),
            |j: int|
                if j == i {
                    1
                } else {
                    0
                },
        ),
        diff_val: red(diff_of(is_slt, b, c, limb_bits, i), p),
    }
}

/// The lookups of that row.
pub open spec fn less_than_requests(
    is_slt: bool,
    b: Seq<u8>,
    c: Seq<u8>,
    limb_bits: usize,
    i: int,
    p: int,
) -> Seq<LookupRequest> {
    let head = seq![
        LookupRequest {
            kind: LookupKind::Range,
            x: msb_range_of(is_slt, b, limb_bits) as u32,
            y: msb_range_of(is_slt, c, limb_bits) as u32,
        },
    ];
    if i == b.len() {
        head
    } else {
        head.push(
            LookupRequest {
                kind: LookupKind::Range,
                x: (red(diff_of(is_slt, b, c, limb_bits, i), p) - 1) as u32,
                y: 0,
            },
        )
    }
}

/// The looked-up value of the most significant limb fits in a byte.
pub open spec fn msb_fits(is_slt: bool, x: Seq<u8>, limb_bits: usize) -> bool {
    is_slt && !sign_set(is_slt, x, limb_bits) ==> x[x.len() - 1] + half_base(limb_bits) <= 255
}

/// Limbs in range fit.
pub proof fn lemma_msb_fits(is_slt: bool, x: Seq<u8>, limb_bits: usize)
    requires
        1 <= limb_bits <= 8,
        x.len() >= 1,
        x[x.len() - 1] < limb_base(limb_bits),
    ensures
        msb_fits(is_slt, x, limb_bits),
        0 <= msb_range_of(is_slt, x, limb_bits) < limb_base(limb_bits),
        sign_set(is_slt, x, limb_bits) == (is_slt && x[x.len() - 1] >= half_base(limb_bits)),
{
    lemma_limb_base(limb_bits);
    lemma_limb_base((limb_bits - 1) as usize);
    lemma_sign(x[x.len() - 1] as int, half_base(limb_bits));
}

/// Two most significant limbs that differ, differ after the base is taken from the negative ones.
proof fn lemma_msb_differs(is_slt: bool, x: Seq<u8>, y: Seq<u8>, limb_bits: usize)
    requires
        1 <= limb_bits <= 8,
        x.len() >= 1,
        x.len() == y.len(),
        x[x.len() - 1] != y[x.len() - 1],
    ensures
        msb_of(is_slt, x, limb_bits) != msb_of(is_slt, y, limb_bits),
        -256 <= msb_of(is_slt, x, limb_bits) <= 255,
        -256 <= msb_of(is_slt, y, limb_bits) <= 255,
{
    lemma_limb_base(limb_bits);
    lemma_limb_base((limb_bits - 1) as usize);
    lemma_signed_below(x[x.len() - 1] as int, half_base(limb_bits));
    lemma_signed_below(y[x.len() - 1] as int, half_base(limb_bits));
}

proof fn lemma_signed_below(x: int, half: int)
    requires
        half >= 1,
    ensures
        x / half == 1 ==> half <= x < 2 * half,
{
    lemma_fundamental_div_mod(x, half);
    lemma_mod_bound(x, half);
}

pub struct LessThanStep<const NUM_LIMBS: usize, const LIMB_BITS: usize> {
    pub offset: usize,
}

impl<const NUM_LIMBS: usize, const LIMB_BITS: usize> LessThanStep<NUM_LIMBS, LIMB_BITS> {
    pub fn new(offset: usize) -> (r: Self)
        ensures
            r.offset == offset,
    {
        LessThanStep { offset }
    }

    /// The index is that of an opcode of this chip.
    pub open spec fn handles(&self, opcode: usize) -> bool {
        self.offset <= opcode < self.offset + 2
    }

    pub fn get_opcode_name(&self, opcode: usize) -> (r: String)
        requires
            self.handles(opcode),
        ensures
            forall|op: LessThanOpcode|
                op.index() == opcode - self.offset ==> r@ == #[trigger] op.spec_name(),
    {
        LessThanOpcode::from_usize(opcode - self.offset).name()
    }

    /// Executes an instruction on the operands that the adapter read. Returns what the adapter is
    /// to write and the record of the row; `pc` moves to the next instruction.
    pub fn execute<F>(
        &self,
        pc: &mut u32,
        instruction: &Instruction<F>,
        reads: [[u8; NUM_LIMBS]; 2],
    ) -> (r: ([[u8; NUM_LIMBS]; 1], LessThanCoreRecord<NUM_LIMBS, LIMB_BITS>))
        requires
            NUM_LIMBS >= 1,
            1 <= LIMB_BITS <= 8,
            self.handles(instruction.opcode.index),
        ensures
            r.1.b == reads[0],
            r.1.c == reads[1],
            r.1.local_opcode == instruction.opcode.index - self.offset,
            forall|i: int| #[trigger]
                is_top_difference(reads[0]@, reads[1]@, i) ==> r.0[0][0] == (if less_at(
                    r.1.is_slt(),
                    reads[0]@,
                    reads[1]@,
                    LIMB_BITS,
                    i,
                ) {
                    1u8
                } else {
                    0u8
                }),
            forall|i: int| 1 <= i < NUM_LIMBS ==> #[trigger] r.0[0][i] == 0,
            *final(pc) == (*old(pc) + DEFAULT_PC_STEP) % 0x1_0000_0000,
    {
        let record = LessThanCoreRecord {
            b: reads[0],
            c: reads[1],
            local_opcode: instruction.opcode.local_opcode_idx(self.offset) as u8,
        };
        let is_slt = record.local_opcode == LessThanOpcode::SLT.to_u8();
        let (less, top, _, _) = run_less_than::<NUM_LIMBS, LIMB_BITS>(
            is_slt,
            &reads[0],
            &reads[1],
        );
        let mut output = [0u8;NUM_LIMBS];
        if less {
            output[0] = 1;
        }
        *pc = pc.wrapping_add(DEFAULT_PC_STEP);
        assert forall|i: int| #[trigger] is_top_difference(reads[0]@, reads[1]@, i) implies i
            == top by {
            lemma_top_unique(reads[0]@, reads[1]@, i, top as int);
        }
        ([output], record)
    }

    /// The most significant limb as a field element, and as it is looked up.
    fn fill_msb<F: PrimeField32>(is_slt: bool, sign: bool, x: &[u8; NUM_LIMBS]) -> (r: (F, u8))
        requires
            NUM_LIMBS >= 1,
            1 <= LIMB_BITS <= 8,
            512 < F::order(),
            sign == sign_set(is_slt, x@, LIMB_BITS),
            msb_fits(is_slt, x@, LIMB_BITS),
        ensures
            r.0.val() == red(msb_of(is_slt, x@, LIMB_BITS), F::order()),
            r.1 == msb_range_of(is_slt, x@, LIMB_BITS),
    {
        let top = x[NUM_LIMBS - 1];
        proof {
            lemma_limb_base(LIMB_BITS);
            lemma_limb_base((LIMB_BITS - 1) as usize);
            lemma_u16_shl_is_mul(1, LIMB_BITS as u16);
            lemma_u8_shl_is_mul(1, (LIMB_BITS - 1) as u8);
            lemma_red_small(top as int, F::order());
            if sign {
                lemma_signed_below(top as int, half_base(LIMB_BITS));
            }
        }
        let half: u8 = 1u8 << (LIMB_BITS as u8 - 1);
        if sign {
            let base: u16 = 1u16 << (LIMB_BITS as u16);
            let magnitude = F::from_canonical_u32((base - top as u16) as u32);
            (magnitude.neg(), top - half)
        } else if is_slt {
            (F::from_canonical_u32(top as u32), top + half)
        } else {
            (F::from_canonical_u32(top as u32), top)
        }
    }

    /// The difference at the marked limb.
    fn fill_diff<F: PrimeField32>(
        is_slt: bool,
        less: bool,
        top: usize,
        b: &[u8; NUM_LIMBS],
        c: &[u8; NUM_LIMBS],
        b_msb_f: F,
        c_msb_f: F,
    ) -> (r: F)
        requires
            NUM_LIMBS >= 1,
            1 <= LIMB_BITS <= 8,
            512 < F::order(),
            is_top_difference(b@, c@, top as int),
            less == less_at(is_slt, b@, c@, LIMB_BITS, top as int),
            b_msb_f.val() == red(msb_of(is_slt, b@, LIMB_BITS), F::order()),
            c_msb_f.val() == red(msb_of(is_slt, c@, LIMB_BITS), F::order()),
        ensures
            r.val() == red(diff_of(is_slt, b@, c@, LIMB_BITS, top as int), F::order()),
            top < NUM_LIMBS ==> r.val() >= 1,
    {
        let ghost p = F::order();
        let ghost bm = msb_of(is_slt, b@, LIMB_BITS);
        let ghost cm = msb_of(is_slt, c@, LIMB_BITS);
        proof {
            lemma_red_small(0, p);
            lemma_fsub_red(cm, bm, p);
            lemma_fsub_red(bm, cm, p);
        }
        if top == NUM_LIMBS {
            F::zero()
        } else if top == NUM_LIMBS - 1 {
            proof {
                lemma_msb_differs(is_slt, b@, c@, LIMB_BITS);
                lemma_red_range(cm - bm, p);
                lemma_red_range(bm - cm, p);
                if red(cm - bm, p) == 0 {
                    lemma_red_zero_small(cm - bm, p);
                }
                if red(bm - cm, p) == 0 {
                    lemma_red_zero_small(bm - cm, p);
                }
            }
            if less {
                c_msb_f.sub(b_msb_f)
            } else {
                b_msb_f.sub(c_msb_f)
            }
        } else {
            assert(b[NUM_LIMBS - 1] == c[NUM_LIMBS - 1]);
            if less {
                proof {
                    lemma_red_small(c[top as int] - b[top as int], p);
                }
                F::from_canonical_u32((c[top] - b[top]) as u32)
            } else {
                proof {
                    lemma_red_small(b[top as int] - c[top as int], p);
                }
                F::from_canonical_u32((b[top] - c[top]) as u32)
            }
        }
    }

    /// The lookups of the row.
    fn fill_requests(b_range: u8, c_range: u8, diff_val: Option<u32>) -> (r: Vec<LookupRequest>)
        requires
            diff_val matches Some(d) ==> d >= 1,
        ensures
            r@ == ({
                let head = seq![
                    LookupRequest {
                        kind: LookupKind::Range,
                        x: b_range as u32,
                        y: c_range as u32,
                    },
                ];
                match diff_val {
                    Some(d) => head.push(
                        LookupRequest { kind: LookupKind::Range, x: (d - 1) as u32, y: 0 },
                    ),
                    None => head,
                }
            }),
    {
        let mut requests: Vec<LookupRequest> = Vec::new();
        requests.push(
            LookupRequest { kind: LookupKind::Range, x: b_range as u32, y: c_range as u32 },
        );
        if let Some(d) = diff_val {
            requests.push(LookupRequest { kind: LookupKind::Range, x: d - 1, y: 0 });
        }
        requests
    }

    /// The markers: one at `top`, unless all limbs are equal.
    fn fill_marker<F: PrimeField32>(top: usize) -> (r: [F; NUM_LIMBS])
        ensures
            array_vals(r) == Seq::new(
                NUM_LIMBS as nat,
                |j: int|
                    if j == top {
                        1int
                    } else {
                        0
                    },
            ),
    {
        let mut r = [F::zero();NUM_LIMBS];
        if top < NUM_LIMBS {
            r[top] = F::one();
        }
        assert(array_vals(r) =~= Seq::new(
            NUM_LIMBS as nat,
            |j: int|
                if j == top {
                    1int
                } else {
                    0
                },
        ));
        r
    }

    /// Fills a row from its record, and lists the lookups that the row sends.
    pub fn fill_trace_row<F: PrimeField32>(
        &self,
        record: &LessThanCoreRecord<NUM_LIMBS, LIMB_BITS>,
    ) -> (r: (LessThanCoreCols<F, NUM_LIMBS, LIMB_BITS>, Vec<LookupRequest>))
        requires
            NUM_LIMBS >= 1,
            1 <= LIMB_BITS <= 8,
            512 < F::order(),
            msb_fits(record.is_slt(), record.b@, LIMB_BITS),
            msb_fits(record.is_slt(), record.c@, LIMB_BITS),
        ensures
            r.0.row().b == byte_vals(record.b@),
            r.0.row().c == byte_vals(record.c@),
            forall|i: int| #[trigger]
                is_top_difference(record.b@, record.c@, i) ==> {
                    &&& r.0.row() == less_than_row(
                        record.is_slt(),
                        record.b@,
                        record.c@,
                        LIMB_BITS,
                        i,
                        F::order(),
                    )
                    &&& r.1@ == less_than_requests(
                        record.is_slt(),
                        record.b@,
                        record.c@,
                        LIMB_BITS,
                        i,
                        F::order(),
                    )
                },
    {
        let is_slt = record.local_opcode == LessThanOpcode::SLT.to_u8();
        let (less, top, b_sign, c_sign) = run_less_than::<NUM_LIMBS, LIMB_BITS>(
            is_slt,
            &record.b,
            &record.c,
        );
        let (b_msb_f, b_range): (F, u8) = Self::fill_msb(is_slt, b_sign, &record.b);
        let (c_msb_f, c_range): (F, u8) = Self::fill_msb(is_slt, c_sign, &record.c);
        let diff_val = Self::fill_diff(is_slt, less, top, &record.b, &record.c, b_msb_f, c_msb_f);
        let marked = if top < NUM_LIMBS {
            Some(diff_val.as_canonical_u32())
        } else {
            None
        };
        let requests = Self::fill_requests(b_range, c_range, marked);
        let cols = LessThanCoreCols {
            b: field_bytes(&record.b),
            c: field_bytes(&record.c),
            cmp_result: F::from_bool(less),
            opcode_slt_flag: F::from_bool(is_slt),
            opcode_sltu_flag: F::from_bool(!is_slt),
            b_msb_f,
            c_msb_f,
            diff_marker: Self::fill_marker(top),
            diff_val,
        };
        proof {
            Self::lemma_filled(record, top, cols.row(), requests@, F::order());
        }
        (cols, requests)
    }

    /// A row and lookups that are right at `top` are right at every index at which the operands
    /// differ most significantly: there is but one.
    proof fn lemma_filled(
        record: &LessThanCoreRecord<NUM_LIMBS, LIMB_BITS>,
        top: usize,
        row: LessThanRow,
        requests: Seq<LookupRequest>,
        p: int,
    )
        requires
            is_top_difference(record.b@, record.c@, top as int),
            row.b == byte_vals(record.b@),
            row.c == byte_vals(record.c@),
            ({
                let want = less_than_row(
                    record.is_slt(),
                    record.b@,
                    record.c@,
                    LIMB_BITS,
                    top as int,
                    p,
                );
                &&& row.result == want.result
                &&& row.slt == want.slt
                &&& row.sltu == want.sltu
                &&& row.b_msb == want.b_msb
                &&& row.c_msb == want.c_msb
                &&& row.marker =~= want.marker
                &&& row.diff_val == want.diff_val
            }),
            requests =~= less_than_requests(
                record.is_slt(),
                record.b@,
                record.c@,
                LIMB_BITS,
                top as int,
                p,
            ),
        ensures
            forall|i: int| #[trigger]
                is_top_difference(record.b@, record.c@, i) ==> {
                    &&& row == less_than_row(
                        record.is_slt(),
                        record.b@,
                        record.c@,
                        LIMB_BITS,
                        i,
                        p,
                    )
                    &&& requests == less_than_requests(
                        record.is_slt(),
                        record.b@,
                        record.c@,
                        LIMB_BITS,
                        i,
                        p,
                    )
                },
    {
        assert forall|i: int| #[trigger] is_top_difference(record.b@, record.c@, i) implies i
            == top by {
            lemma_top_unique(record.b@, record.c@, i, top as int);
        }
    }
}

/// There is one most significant index at which two numbers differ.
pub proof fn lemma_top_unique(x: Seq<u8>, y: Seq<u8>, i: int, j: int)
    requires
        is_top_difference(x, y, i),
        is_top_difference(x, y, j),
    ensures
        i == j,
{
    if i < x.len() {
        assert(x[i] != y[i]);
    }
    if j < x.len() {
        assert(x[j] != y[j]);
    }
}

} // verus!
