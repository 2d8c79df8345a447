//! The columns of the arithmetic and logic chip.
use crate::air::{array_vals, LookupKind, SendVals};
use crate::field::PrimeField32;
use crate::instructions::BaseAluOpcode;
use vstd::prelude::*;

verus! {

/// The columns of one row.
pub struct BaseAluCoreCols<T, const NUM_LIMBS: usize, const LIMB_BITS: usize> {
    pub a: [T; NUM_LIMBS],
    pub b: [T; NUM_LIMBS],
    pub c: [T; NUM_LIMBS],
    pub opcode_add_flag: T,
    pub opcode_sub_flag: T,
    pub opcode_xor_flag: T,
    pub opcode_or_flag: T,
    pub opcode_and_flag: T,
}

/// The canonical values of one row.
pub ghost struct BaseAluRow {
    pub a: Seq<int>,
    pub b: Seq<int>,
    pub c: Seq<int>,
    pub add: int,
    pub sub: int,
    pub xor: int,
    pub or: int,
    pub and: int,
}

impl<F: PrimeField32, const NUM_LIMBS: usize, const LIMB_BITS: usize> BaseAluCoreCols<
    F,
    NUM_LIMBS,
    LIMB_BITS,
> {
    pub open spec fn row(&self) -> BaseAluRow {
        BaseAluRow {
            a: array_vals(self.a),
            b: array_vals(self.b),
            c: array_vals(self.c),
            add: self.opcode_add_flag.val(),
            sub: self.opcode_sub_flag.val(),
            xor: self.opcode_xor_flag.val(),
            or: self.opcode_or_flag.val(),
            and: self.opcode_and_flag.val(),
        }
    }
}

impl BaseAluRow {
    /// The sum of the flags: one in the row of an operation, zero in a row that holds none.
    pub open spec fn is_valid(self) -> int {
        self.add + self.sub + self.xor + self.or + self.and
    }

    pub open spec fn bitwise(self) -> int {
        self.xor + self.or + self.and
    }

    /// The carry out of limb `i` of `b + c`, as a multiple of `inv`, the inverse of the base.
    pub open spec fn carry_add(self, inv: int, i: int) -> int
        decreases i + 1,
    {
        if i < 0 {
            0
        } else {
            inv * (self.b[i] + self.c[i] - self.a[i] + self.carry_add(inv, i - 1))
        }
    }

    /// The borrow from limb `i` of `b - c`, as a multiple of `inv`, the inverse of the base.
    pub open spec fn carry_sub(self, inv: int, i: int) -> int
        decreases i + 1,
    {
        if i < 0 {
            0
        } else {
            inv * (self.a[i] + self.c[i] - self.b[i] + self.carry_sub(inv, i - 1))
        }
    }

    /// The constraints on the flags: each is zero or one, and so is their sum.
    pub open spec fn flag_constraints(self) -> Seq<int> {
        seq![
            self.add * (self.add - 1),
            self.sub * (self.sub - 1),
            self.xor * (self.xor - 1),
            self.or * (self.or - 1),
            self.and * (self.and - 1),
            self.is_valid() * (self.is_valid() - 1),
        ]
    }

    /// For each of the lowest `n` limbs: the carry is zero or one if this is an addition, and the
    /// borrow is zero or one if this is a subtraction.
    pub open spec fn carry_constraints(self, inv: int, n: int) -> Seq<int>
        decreases n,
    {
        if n <= 0 {
            Seq::empty()
        } else {
            let x = self.carry_add(inv, n - 1);
            let y = self.carry_sub(inv, n - 1);
            self.carry_constraints(inv, n - 1).push(self.add * (x * (x - 1))).push(
                self.sub * (y * (y - 1)),
            )
        }
    }

    /// All constraints of a row of `n` limbs.
    pub open spec fn constraints(self, inv: int, n: int) -> Seq<int> {
        self.flag_constraints() + self.carry_constraints(inv, n)
    }

    /// The lookup for limb `i`: for a bitwise operation the operands, otherwise the result twice.
    pub open spec fn send(self, i: int) -> SendVals {
        let w = self.bitwise();
        SendVals {
            kind: LookupKind::Xor,
            x: (1 - w) * self.a[i] + w * self.b[i],
            y: (1 - w) * self.a[i] + w * self.c[i],
            z: self.xor * self.a[i] + self.or * (2 * self.a[i] - self.b[i] - self.c[i]) + self.and
                * (self.b[i] + self.c[i] - 2 * self.a[i]),
            count: self.is_valid(),
        }
    }

    /// The lookups of a row of `n` limbs.
    pub open spec fn sends(self, n: int) -> Seq<SendVals> {
        Seq::new(n as nat, |i: int| self.send(i))
    }

    /// The index of the opcode whose flag is set.
    pub open spec fn local_opcode(self) -> int {
        self.sub + 2 * self.xor + 3 * self.or + 4 * self.and
    }

    /// The flag of `opcode` is one and the others are zero.
    pub open spec fn selects(self, opcode: BaseAluOpcode) -> bool {
        &&& self.add == (if opcode == BaseAluOpcode::ADD { 1int } else { 0 })
        &&& self.sub == (if opcode == BaseAluOpcode::SUB { 1int } else { 0 })
        &&& self.xor == (if opcode == BaseAluOpcode::XOR { 1int } else { 0 })
        &&& self.or == (if opcode == BaseAluOpcode::OR { 1int } else { 0 })
        &&& self.and == (if opcode == BaseAluOpcode::AND { 1int } else { 0 })
    }
}

} // verus!
