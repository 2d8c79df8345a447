//! The columns of the comparison chip.
use crate::air::{array_vals, LookupKind, SendVals};
use crate::field::PrimeField32;
use crate::instructions::LessThanOpcode;
use vstd::prelude::*;

verus! {

/// The columns of one row.
pub struct LessThanCoreCols<T, const NUM_LIMBS: usize, const LIMB_BITS: usize> {
    pub b: [T; NUM_LIMBS],
    pub c: [T; NUM_LIMBS],
    pub cmp_result: T,
    pub opcode_slt_flag: T,
    pub opcode_sltu_flag: T,
    /// The most significant limb of b: from minus half the base up to half the base if signed,
    /// from zero up to the base if unsigned.
    pub b_msb_f: T,
    /// The same of c.
    pub c_msb_f: T,
    /// One at the most significant index at which b and c differ, otherwise zero.
    pub diff_marker: [T; NUM_LIMBS],
    /// The absolute difference at that index.
    pub diff_val: T,
}

/// The canonical values of one row.
pub ghost struct LessThanRow {
    pub b: Seq<int>,
    pub c: Seq<int>,
    pub result: int,
    pub slt: int,
    pub sltu: int,
    pub b_msb: int,
    pub c_msb: int,
    pub marker: Seq<int>,
    pub diff_val: int,
}

impl<F: PrimeField32, const NUM_LIMBS: usize, const LIMB_BITS: usize> LessThanCoreCols<
    F,
    NUM_LIMBS,
    LIMB_BITS,
> {
    pub open spec fn row(&self) -> LessThanRow {
        LessThanRow {
            b: array_vals(self.b),
            c: array_vals(self.c),
            result: self.cmp_result.val(),
            slt: self.opcode_slt_flag.val(),
            sltu: self.opcode_sltu_flag.val(),
            b_msb: self.b_msb_f.val(),
            c_msb: self.c_msb_f.val(),
            marker: array_vals(self.diff_marker),
            diff_val: self.diff_val.val(),
        }
    }
}

impl LessThanRow {
    /// The number of limbs.
    pub open spec fn limbs(self) -> int {
        self.b.len() as int
    }

    pub open spec fn is_valid(self) -> int {
        self.slt + self.sltu
    }

    /// The sum of the markers from index `i` on.
    pub open spec fn prefix(self, i: int) -> int
        decreases self.limbs() - i,
    {
        if i >= self.limbs() {
            0
        } else {
            self.prefix(i + 1) + self.marker[i]
        }
    }

    /// The difference at index `i`: c minus b if the result is one, b minus c if it is zero.
    pub open spec fn diff(self, i: int) -> int {
        (if i == self.limbs() - 1 {
            self.c_msb - self.b_msb
        } else {
            self.c[i] - self.b[i]
        }) * (2 * self.result - 1)
    }

    /// The constraints on the flags, the result and the most significant limbs.
    pub open spec fn head_constraints(self, base: int) -> Seq<int> {
        let b_diff = self.b[self.limbs() - 1] - self.b_msb;
        let c_diff = self.c[self.limbs() - 1] - self.c_msb;
        seq![
            self.slt * (self.slt - 1),
            self.sltu * (self.sltu - 1),
            self.is_valid() * (self.is_valid() - 1),
            self.result * (self.result - 1),
            b_diff * (base - b_diff),
            c_diff * (base - c_diff),
        ]
    }

    /// The constraints on the limbs from index `i` on, the most significant first: the marker is
    /// zero or one; the difference is zero up to the marked limb; the difference at the marked
    /// limb is `diff_val`.
    pub open spec fn limb_constraints(self, i: int) -> Seq<int>
        decreases self.limbs() - i,
    {
        if i >= self.limbs() {
            Seq::empty()
        } else {
            self.limb_constraints(i + 1).push(self.marker[i] * (self.marker[i] - 1)).push(
                (1 - self.prefix(i)) * self.diff(i),
            ).push(self.marker[i] * (self.diff_val - self.diff(i)))
        }
    }

    /// At most one limb is marked, and the result is zero if none is.
    pub open spec fn tail_constraints(self) -> Seq<int> {
        seq![
            self.prefix(0) * (self.prefix(0) - 1),
            (1 - self.prefix(0)) * self.result,
        ]
    }

    /// All constraints, for limbs below `base`.
    pub open spec fn constraints(self, base: int) -> Seq<int> {
        self.head_constraints(base) + self.limb_constraints(0) + self.tail_constraints()
    }

    /// The lookups: the most significant limbs lie in the range of a limb, moved by `half` if
    /// signed; the difference at a marked limb is not zero.
    pub open spec fn sends(self, half: int) -> Seq<SendVals> {
        seq![
            SendVals {
                kind: LookupKind::Range,
                x: self.b_msb + half * self.slt,
                y: self.c_msb + half * self.slt,
                z: 0,
                count: self.is_valid(),
            },
            SendVals {
                kind: LookupKind::Range,
                x: self.diff_val - 1,
                y: 0,
                z: 0,
                count: self.prefix(0),
            },
        ]
    }

    /// The flag of `opcode` is one and the other is zero.
    pub open spec fn selects(self, opcode: LessThanOpcode) -> bool {
        &&& self.slt == (if opcode == LessThanOpcode::SLT { 1int } else { 0 })
        &&& self.sltu == (if opcode == LessThanOpcode::SLTU { 1int } else { 0 })
    }
}

} // verus!
