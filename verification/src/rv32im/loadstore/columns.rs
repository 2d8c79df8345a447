//! The columns of the load and store chip.
use crate::air::array_vals;
use crate::field::PrimeField32;
use crate::instructions::Rv32LoadStoreOpcode;
use vstd::prelude::*;

verus! {

/// An opcode together with the shift of the access.
#[derive(Clone, Copy, Debug, PartialEq, Eq, Structural)]
pub enum InstructionOpcode {
    LoadW0,
    LoadHu0,
    LoadHu2,
    LoadBu0,
    LoadBu1,
    LoadBu2,
    LoadBu3,
    StoreW0,
    StoreH0,
    StoreH2,
    StoreB0,
    StoreB1,
    StoreB2,
    StoreB3,
}

impl InstructionOpcode {
    pub open spec fn opcode(self) -> Rv32LoadStoreOpcode {
        match self {
            InstructionOpcode::LoadW0 => Rv32LoadStoreOpcode::LOADW,
            InstructionOpcode::LoadHu0 | InstructionOpcode::LoadHu2 => Rv32LoadStoreOpcode::LOADHU,
            InstructionOpcode::LoadBu0
            | InstructionOpcode::LoadBu1
            | InstructionOpcode::LoadBu2
            | InstructionOpcode::LoadBu3 => Rv32LoadStoreOpcode::LOADBU,
            InstructionOpcode::StoreW0 => Rv32LoadStoreOpcode::STOREW,
            InstructionOpcode::StoreH0 | InstructionOpcode::StoreH2 => Rv32LoadStoreOpcode::STOREH,
            _ => Rv32LoadStoreOpcode::STOREB,
        }
    }

    pub open spec fn shift(self) -> int {
        match self {
            InstructionOpcode::LoadBu1 | InstructionOpcode::StoreB1 => 1,
            InstructionOpcode::LoadHu2
            | InstructionOpcode::LoadBu2
            | InstructionOpcode::StoreH2
            | InstructionOpcode::StoreB2 => 2,
            InstructionOpcode::LoadBu3 | InstructionOpcode::StoreB3 => 3,
            _ => 0,
        }
    }

    /// The flags that stand for this opcode: a two, a one, or two ones.
    pub open spec fn flags(self) -> Seq<int> {
        match self {
            InstructionOpcode::LoadW0 => seq![2, 0, 0, 0],
            InstructionOpcode::LoadHu0 => seq![0, 2, 0, 0],
            InstructionOpcode::LoadHu2 => seq![0, 0, 2, 0],
            InstructionOpcode::LoadBu0 => seq![0, 0, 0, 2],
            InstructionOpcode::LoadBu1 => seq![1, 0, 0, 0],
            InstructionOpcode::LoadBu2 => seq![0, 1, 0, 0],
            InstructionOpcode::LoadBu3 => seq![0, 0, 1, 0],
            InstructionOpcode::StoreW0 => seq![0, 0, 0, 1],
            InstructionOpcode::StoreH0 => seq![1, 1, 0, 0],
            InstructionOpcode::StoreH2 => seq![1, 0, 1, 0],
            InstructionOpcode::StoreB0 => seq![1, 0, 0, 1],
            InstructionOpcode::StoreB1 => seq![0, 1, 1, 0],
            InstructionOpcode::StoreB2 => seq![0, 1, 0, 1],
            InstructionOpcode::StoreB3 => seq![0, 0, 1, 1],
        }
    }
}

/// The columns of one row.
///
/// The chip turns bytes and halfwords into words, with zeros in front, and shifts them where the
/// access is not aligned to four bytes. `write_data` is constrained against `read_data` and
/// `prev_data`; each pair of an opcode and a shift is an instruction of its own.
pub struct LoadStoreCoreCols<T, const NUM_CELLS: usize> {
    pub flags: [T; 4],
    pub is_valid: T,
    pub is_load: T,
    pub read_data: [T; NUM_CELLS],
    pub prev_data: [T; NUM_CELLS],
    pub write_data: [T; NUM_CELLS],
}

/// The canonical values of one row.
pub ghost struct LoadStoreRow {
    pub flags: Seq<int>,
    pub is_valid: int,
    pub is_load: int,
    pub read_data: Seq<int>,
    pub prev_data: Seq<int>,
    pub write_data: Seq<int>,
}

impl<F: PrimeField32, const NUM_CELLS: usize> LoadStoreCoreCols<F, NUM_CELLS> {
    pub open spec fn row(&self) -> LoadStoreRow {
        LoadStoreRow {
            flags: array_vals(self.flags),
            is_valid: self.is_valid.val(),
            is_load: self.is_load.val(),
            read_data: array_vals(self.read_data),
            prev_data: array_vals(self.prev_data),
            write_data: array_vals(self.write_data),
        }
    }
}

/// Zero exactly on one and two.
pub open spec fn expr_12(x: int) -> int {
    (x - 1) * (x - 2)
}

impl LoadStoreRow {
    pub open spec fn sum(self) -> int {
        self.flags[0] + self.flags[1] + self.flags[2] + self.flags[3]
    }

    /// One where the flags stand for `op`, otherwise zero; `inv_2` is the inverse of two.
    pub open spec fn when(self, inv_2: int, op: InstructionOpcode) -> int {
        let f = self.flags;
        let s = self.sum() - 2;
        match op {
            InstructionOpcode::LoadW0 => f[0] * (f[0] - 1) * inv_2,
            InstructionOpcode::LoadHu0 => f[1] * (f[1] - 1) * inv_2,
            InstructionOpcode::LoadHu2 => f[2] * (f[2] - 1) * inv_2,
            InstructionOpcode::LoadBu0 => f[3] * (f[3] - 1) * inv_2,
            InstructionOpcode::LoadBu1 => f[0] * s * -1,
            InstructionOpcode::LoadBu2 => f[1] * s * -1,
            InstructionOpcode::LoadBu3 => f[2] * s * -1,
            InstructionOpcode::StoreW0 => f[3] * s * -1,
            InstructionOpcode::StoreH0 => f[0] * f[1],
            InstructionOpcode::StoreH2 => f[0] * f[2],
            InstructionOpcode::StoreB0 => f[0] * f[3],
            InstructionOpcode::StoreB1 => f[1] * f[2],
            InstructionOpcode::StoreB2 => f[1] * f[3],
            InstructionOpcode::StoreB3 => f[2] * f[3],
        }
    }

    pub open spec fn when_load_hu(self, inv_2: int) -> int {
        self.when(inv_2, InstructionOpcode::LoadHu0) + self.when(inv_2, InstructionOpcode::LoadHu2)
    }

    pub open spec fn when_load_bu(self, inv_2: int) -> int {
        self.when(inv_2, InstructionOpcode::LoadBu0) + self.when(inv_2, InstructionOpcode::LoadBu1)
            + self.when(inv_2, InstructionOpcode::LoadBu2) + self.when(
            inv_2,
            InstructionOpcode::LoadBu3,
        )
    }

    pub open spec fn when_store_h(self, inv_2: int) -> int {
        self.when(inv_2, InstructionOpcode::StoreH0) + self.when(inv_2, InstructionOpcode::StoreH2)
    }

    pub open spec fn when_store_b(self, inv_2: int) -> int {
        self.when(inv_2, InstructionOpcode::StoreB0) + self.when(inv_2, InstructionOpcode::StoreB1)
            + self.when(inv_2, InstructionOpcode::StoreB2) + self.when(
            inv_2,
            InstructionOpcode::StoreB3,
        )
    }

    /// One for a load, zero for a store.
    pub open spec fn when_load(self, inv_2: int) -> int {
        self.when(inv_2, InstructionOpcode::LoadW0) + self.when_load_hu(inv_2) + self.when_load_bu(
            inv_2,
        )
    }

    /// What a load leaves in cell `i` of `n`; zero for a store.
    pub open spec fn load_val(self, inv_2: int, n: int, i: int) -> int {
        let r = self.read_data;
        if i == 0 {
            (self.when(inv_2, InstructionOpcode::LoadW0) + self.when(
                inv_2,
                InstructionOpcode::LoadHu0,
            ) + self.when(inv_2, InstructionOpcode::LoadBu0)) * r[0] + self.when(
                inv_2,
                InstructionOpcode::LoadBu1,
            ) * r[1] + (self.when(inv_2, InstructionOpcode::LoadHu2) + self.when(
                inv_2,
                InstructionOpcode::LoadBu2,
            )) * r[2] + self.when(inv_2, InstructionOpcode::LoadBu3) * r[3]
        } else if i < n / 2 {
            (self.when(inv_2, InstructionOpcode::LoadW0) + self.when(
                inv_2,
                InstructionOpcode::LoadHu0,
            )) * r[i] + self.when(inv_2, InstructionOpcode::LoadHu2) * r[i + 2]
        } else {
            self.when(inv_2, InstructionOpcode::LoadW0) * r[i]
        }
    }

    /// What a store leaves in cell `i` of `n`; zero for a load.
    pub open spec fn store_val(self, inv_2: int, n: int, i: int) -> int {
        let r = self.read_data;
        let q = self.prev_data;
        let w0 = self.when(inv_2, InstructionOpcode::StoreW0);
        let h0 = self.when(inv_2, InstructionOpcode::StoreH0);
        let h2 = self.when(inv_2, InstructionOpcode::StoreH2);
        let b0 = self.when(inv_2, InstructionOpcode::StoreB0);
        let b1 = self.when(inv_2, InstructionOpcode::StoreB1);
        let b2 = self.when(inv_2, InstructionOpcode::StoreB2);
        let b3 = self.when(inv_2, InstructionOpcode::StoreB3);
        if i == 0 {
            (w0 + h0 + b0) * r[0] + (h2 + b1 + b2 + b3) * q[0]
        } else if i == 1 {
            b1 * r[0] + (w0 + h0) * r[1] + (h2 + b0 + b2 + b3) * q[1]
        } else if i == 2 {
            (h2 + b2) * r[0] + w0 * r[2] + (h0 + b0 + b1 + b3) * q[2]
        } else if i == 3 {
            b3 * r[0] + h2 * r[1] + w0 * r[3] + (h0 + b0 + b1 + b2) * q[3]
        } else {
            w0 * r[i] + (b0 + b1 + b2 + b3) * q[i] + h0 * (if i < n / 2 {
                r[i]
            } else {
                q[i]
            }) + h2 * (if i - 2 < n / 2 {
                r[i - 2]
            } else {
                q[i]
            })
        }
    }

    /// The constraints on the flags: each is zero, one or two, and so is their sum; a valid row
    /// has a sum other than zero; `is_load` is set exactly for loads, and only on valid rows.
    pub open spec fn flag_constraints(self, inv_2: int) -> Seq<int> {
        seq![
            self.is_valid * (self.is_valid - 1),
            self.flags[0] * expr_12(self.flags[0]),
            self.flags[1] * expr_12(self.flags[1]),
            self.flags[2] * expr_12(self.flags[2]),
            self.flags[3] * expr_12(self.flags[3]),
            self.sum() * expr_12(self.sum()),
            expr_12(self.sum()) * self.is_valid,
            self.is_load - self.when_load(inv_2),
            self.is_load * (self.is_valid - 1),
        ]
    }

    /// The constraint on cell `i` of `n`.
    pub open spec fn cell_constraint(self, inv_2: int, n: int, i: int) -> int {
        self.write_data[i] - (self.load_val(inv_2, n, i) + self.store_val(inv_2, n, i))
    }

    /// All constraints of a row of `n` cells.
    pub open spec fn constraints(self, inv_2: int, n: int) -> Seq<int> {
        self.flag_constraints(inv_2) + Seq::new(
            n as nat,
            |i: int| self.cell_constraint(inv_2, n, i),
        )
    }

    /// The index of the opcode that the flags stand for.
    pub open spec fn local_opcode(self, inv_2: int) -> int {
        self.when_load_hu(inv_2) * 2 + self.when_load_bu(inv_2) + self.when(
            inv_2,
            InstructionOpcode::StoreW0,
        ) * 3 + self.when_store_h(inv_2) * 4 + self.when_store_b(inv_2) * 5
    }

    /// The shift of a load; zero for a store.
    pub open spec fn load_shift(self, inv_2: int) -> int {
        self.when(inv_2, InstructionOpcode::LoadBu1) + (self.when(inv_2, InstructionOpcode::LoadHu2)
            + self.when(inv_2, InstructionOpcode::LoadBu2)) * 2 + self.when(
            inv_2,
            InstructionOpcode::LoadBu3,
        ) * 3
    }

    /// The shift of a store; zero for a load.
    pub open spec fn store_shift(self, inv_2: int) -> int {
        self.when(inv_2, InstructionOpcode::StoreB1) + (self.when(inv_2, InstructionOpcode::StoreH2)
            + self.when(inv_2, InstructionOpcode::StoreB2)) * 2 + self.when(
            inv_2,
            InstructionOpcode::StoreB3,
        ) * 3
    }
}

} // verus!
