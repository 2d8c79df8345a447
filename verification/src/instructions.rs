//! Instructions, opcodes and the constants of the instruction set.
use crate::limbs::le_bytes;
use vstd::prelude::*;

verus! {

/// Address space that marks an operand as an immediate.
pub const RV32_IMM_AS: u32 = 0;

/// Address space of the registers.
pub const RV32_REGISTER_AS: u32 = 1;

/// Address space of the main memory.
pub const RV32_MEMORY_AS: u32 = 2;

/// Address space whose cells are field elements.
pub const NATIVE_AS: u32 = 4;

/// Distance between consecutive instructions.
pub const DEFAULT_PC_STEP: u32 = 4;

/// Bytes in a register.
pub const RV32_REGISTER_NUM_LIMBS: usize = 4;

/// Bits in a memory pointer.
pub const POINTER_MAX_BITS: u32 = 29;

/// Exclusive bound on memory pointers.
pub const POINTER_BOUND: u32 = 0x2000_0000;

/// An opcode, unique among all chips.
#[derive(Clone, Copy, Debug, PartialEq, Eq, Structural)]
pub struct VmOpcode {
    pub index: usize,
}

impl VmOpcode {
    pub fn as_usize(self) -> (r: usize)
        ensures
            r == self.index,
    {
        self.index
    }

    /// The index of this opcode within the class that starts at `offset`.
    pub fn local_opcode_idx(self, offset: usize) -> (r: usize)
        requires
            self.index >= offset,
        ensures
            r == self.index - offset,
    {
        self.index - offset
    }
}

/// An instruction with operands in the field `F`.
#[derive(Clone, Copy, Debug)]
pub struct Instruction<F> {
    pub opcode: VmOpcode,
    pub a: F,
    pub b: F,
    pub c: F,
    pub d: F,
    pub e: F,
    pub f: F,
    pub g: F,
}

/// Opcodes of the arithmetic and logic chip.
#[derive(Clone, Copy, Debug, PartialEq, Eq, Structural)]
pub enum BaseAluOpcode {
    ADD,
    SUB,
    XOR,
    OR,
    AND,
}

impl BaseAluOpcode {
    pub open spec fn index(self) -> int {
        match self {
            BaseAluOpcode::ADD => 0,
            BaseAluOpcode::SUB => 1,
            BaseAluOpcode::XOR => 2,
            BaseAluOpcode::OR => 3,
            BaseAluOpcode::AND => 4,
        }
    }

    pub fn from_usize(value: usize) -> (r: Self)
        requires
            value < 5,
        ensures
            r.index() == value,
    {
        match value {
            0 => BaseAluOpcode::ADD,
            1 => BaseAluOpcode::SUB,
            2 => BaseAluOpcode::XOR,
            3 => BaseAluOpcode::OR,
            _ => BaseAluOpcode::AND,
        }
    }

    pub fn to_u8(self) -> (r: u8)
        ensures
            r == self.index(),
    {
        match self {
            BaseAluOpcode::ADD => 0,
            BaseAluOpcode::SUB => 1,
            BaseAluOpcode::XOR => 2,
            BaseAluOpcode::OR => 3,
            BaseAluOpcode::AND => 4,
        }
    }

    pub open spec fn spec_name(self) -> Seq<char> {
        match self {
            BaseAluOpcode::ADD => "ADD"@,
            BaseAluOpcode::SUB => "SUB"@,
            BaseAluOpcode::XOR => "XOR"@,
            BaseAluOpcode::OR => "OR"@,
            BaseAluOpcode::AND => "AND"@,
        }
    }

    pub fn name(self) -> (s: String)
        ensures
            s@ == self.spec_name(),
    {
        match self {
            BaseAluOpcode::ADD => "ADD".to_string(),
            BaseAluOpcode::SUB => "SUB".to_string(),
            BaseAluOpcode::XOR => "XOR".to_string(),
            BaseAluOpcode::OR => "OR".to_string(),
            BaseAluOpcode::AND => "AND".to_string(),
        }
    }
}

/// Opcodes of the comparison chip: signed and unsigned less-than.
#[derive(Clone, Copy, Debug, PartialEq, Eq, Structural)]
pub enum LessThanOpcode {
    SLT,
    SLTU,
}

impl LessThanOpcode {
    pub open spec fn index(self) -> int {
        match self {
            LessThanOpcode::SLT => 0,
            LessThanOpcode::SLTU => 1,
        }
    }

    pub fn from_usize(value: usize) -> (r: Self)
        requires
            value < 2,
        ensures
            r.index() == value,
    {
        match value {
            0 => LessThanOpcode::SLT,
            _ => LessThanOpcode::SLTU,
        }
    }

    pub fn to_u8(self) -> (r: u8)
        ensures
            r == self.index(),
    {
        match self {
            LessThanOpcode::SLT => 0,
            LessThanOpcode::SLTU => 1,
        }
    }

    pub open spec fn spec_name(self) -> Seq<char> {
        match self {
            LessThanOpcode::SLT => "SLT"@,
            LessThanOpcode::SLTU => "SLTU"@,
        }
    }

    pub fn name(self) -> (s: String)
        ensures
            s@ == self.spec_name(),
    {
        match self {
            LessThanOpcode::SLT => "SLT".to_string(),
            LessThanOpcode::SLTU => "SLTU".to_string(),
        }
    }
}

/// Opcodes of the loads and stores.
#[derive(Clone, Copy, Debug, PartialEq, Eq, Structural)]
pub enum Rv32LoadStoreOpcode {
    LOADW,
    LOADBU,
    LOADHU,
    STOREW,
    STOREH,
    STOREB,
    LOADB,
    LOADH,
}

impl Rv32LoadStoreOpcode {
    /// The first opcode of the class.
    pub const CLASS_OFFSET: usize = 0x210;

    pub open spec fn index(self) -> int {
        match self {
            Rv32LoadStoreOpcode::LOADW => 0,
            Rv32LoadStoreOpcode::LOADBU => 1,
            Rv32LoadStoreOpcode::LOADHU => 2,
            Rv32LoadStoreOpcode::STOREW => 3,
            Rv32LoadStoreOpcode::STOREH => 4,
            Rv32LoadStoreOpcode::STOREB => 5,
            Rv32LoadStoreOpcode::LOADB => 6,
            Rv32LoadStoreOpcode::LOADH => 7,
        }
    }

    pub open spec fn is_load(self) -> bool {
        match self {
            Rv32LoadStoreOpcode::LOADW | Rv32LoadStoreOpcode::LOADBU | Rv32LoadStoreOpcode::LOADHU => true,
            _ => false,
        }
    }

    pub open spec fn is_store(self) -> bool {
        match self {
            Rv32LoadStoreOpcode::STOREW | Rv32LoadStoreOpcode::STOREH | Rv32LoadStoreOpcode::STOREB => true,
            _ => false,
        }
    }

    pub fn from_usize(value: usize) -> (r: Self)
        requires
            value < 8,
        ensures
            r.index() == value,
    {
        match value {
            0 => Rv32LoadStoreOpcode::LOADW,
            1 => Rv32LoadStoreOpcode::LOADBU,
            2 => Rv32LoadStoreOpcode::LOADHU,
            3 => Rv32LoadStoreOpcode::STOREW,
            4 => Rv32LoadStoreOpcode::STOREH,
            5 => Rv32LoadStoreOpcode::STOREB,
            6 => Rv32LoadStoreOpcode::LOADB,
            _ => Rv32LoadStoreOpcode::LOADH,
        }
    }

    pub fn to_u8(self) -> (r: u8)
        ensures
            r == self.index(),
    {
        match self {
            Rv32LoadStoreOpcode::LOADW => 0,
            Rv32LoadStoreOpcode::LOADBU => 1,
            Rv32LoadStoreOpcode::LOADHU => 2,
            Rv32LoadStoreOpcode::STOREW => 3,
            Rv32LoadStoreOpcode::STOREH => 4,
            Rv32LoadStoreOpcode::STOREB => 5,
            Rv32LoadStoreOpcode::LOADB => 6,
            Rv32LoadStoreOpcode::LOADH => 7,
        }
    }

    pub open spec fn spec_name(self) -> Seq<char> {
        match self {
            Rv32LoadStoreOpcode::LOADW => "LOADW"@,
            Rv32LoadStoreOpcode::LOADBU => "LOADBU"@,
            Rv32LoadStoreOpcode::LOADHU => "LOADHU"@,
            Rv32LoadStoreOpcode::STOREW => "STOREW"@,
            Rv32LoadStoreOpcode::STOREH => "STOREH"@,
            Rv32LoadStoreOpcode::STOREB => "STOREB"@,
            Rv32LoadStoreOpcode::LOADB => "LOADB"@,
            Rv32LoadStoreOpcode::LOADH => "LOADH"@,
        }
    }

    pub fn name(self) -> (s: String)
        ensures
            s@ == self.spec_name(),
    {
        match self {
            Rv32LoadStoreOpcode::LOADW => "LOADW".to_string(),
            Rv32LoadStoreOpcode::LOADBU => "LOADBU".to_string(),
            Rv32LoadStoreOpcode::LOADHU => "LOADHU".to_string(),
            Rv32LoadStoreOpcode::STOREW => "STOREW".to_string(),
            Rv32LoadStoreOpcode::STOREH => "STOREH".to_string(),
            Rv32LoadStoreOpcode::STOREB => "STOREB".to_string(),
            Rv32LoadStoreOpcode::LOADB => "LOADB".to_string(),
            Rv32LoadStoreOpcode::LOADH => "LOADH".to_string(),
        }
    }
}

/// Opcodes of the equality branches.
#[derive(Clone, Copy, Debug, PartialEq, Eq, Structural)]
pub enum BranchEqualOpcode {
    BEQ,
    BNE,
}

impl BranchEqualOpcode {
    pub open spec fn index(self) -> int {
        match self {
            BranchEqualOpcode::BEQ => 0,
            BranchEqualOpcode::BNE => 1,
        }
    }

    pub fn from_usize(value: usize) -> (r: Self)
        requires
            value < 2,
        ensures
            r.index() == value,
    {
        match value {
            0 => BranchEqualOpcode::BEQ,
            _ => BranchEqualOpcode::BNE,
        }
    }

    pub open spec fn spec_name(self) -> Seq<char> {
        match self {
            BranchEqualOpcode::BEQ => "BEQ"@,
            BranchEqualOpcode::BNE => "BNE"@,
        }
    }

    pub fn name(self) -> (s: String)
        ensures
            s@ == self.spec_name(),
    {
        match self {
            BranchEqualOpcode::BEQ => "BEQ".to_string(),
            BranchEqualOpcode::BNE => "BNE".to_string(),
        }
    }
}

/// Opcodes of the field arithmetic chip.
#[derive(Clone, Copy, Debug, PartialEq, Eq, Structural)]
pub enum FieldArithmeticOpcode {
    ADD,
    SUB,
    MUL,
    DIV,
}

impl FieldArithmeticOpcode {
    /// The first opcode of the class.
    pub const CLASS_OFFSET: usize = 0x130;

    pub open spec fn index(self) -> int {
        match self {
            FieldArithmeticOpcode::ADD => 0,
            FieldArithmeticOpcode::SUB => 1,
            FieldArithmeticOpcode::MUL => 2,
            FieldArithmeticOpcode::DIV => 3,
        }
    }

    pub fn from_usize(value: usize) -> (r: Self)
        requires
            value < 4,
        ensures
            r.index() == value,
    {
        match value {
            0 => FieldArithmeticOpcode::ADD,
            1 => FieldArithmeticOpcode::SUB,
            2 => FieldArithmeticOpcode::MUL,
            _ => FieldArithmeticOpcode::DIV,
        }
    }

    pub fn to_u8(self) -> (r: u8)
        ensures
            r == self.index(),
    {
        match self {
            FieldArithmeticOpcode::ADD => 0,
            FieldArithmeticOpcode::SUB => 1,
            FieldArithmeticOpcode::MUL => 2,
            FieldArithmeticOpcode::DIV => 3,
        }
    }

    pub open spec fn spec_name(self) -> Seq<char> {
        match self {
            FieldArithmeticOpcode::ADD => "ADD"@,
            FieldArithmeticOpcode::SUB => "SUB"@,
            FieldArithmeticOpcode::MUL => "MUL"@,
            FieldArithmeticOpcode::DIV => "DIV"@,
        }
    }

    pub fn name(self) -> (s: String)
        ensures
            s@ == self.spec_name(),
    {
        match self {
            FieldArithmeticOpcode::ADD => "ADD".to_string(),
            FieldArithmeticOpcode::SUB => "SUB".to_string(),
            FieldArithmeticOpcode::MUL => "MUL".to_string(),
            FieldArithmeticOpcode::DIV => "DIV".to_string(),
        }
    }
}

/// The opcode that ends a program.
pub const TERMINATE_OPCODE: usize = 0;

/// The opcode of instructions that run on the host alone.
pub const PHANTOM_OPCODE: usize = 1;

/// System phantom instructions.
#[derive(Clone, Copy, Debug, PartialEq, Eq, Structural)]
pub enum SysPhantom {
    Nop,
    DebugPanic,
    CtStart,
    CtEnd,
}

impl SysPhantom {
    pub open spec fn spec_from_repr(discriminant: u16) -> Option<SysPhantom> {
        if discriminant == 0 {
            Some(SysPhantom::Nop)
        } else if discriminant == 1 {
            Some(SysPhantom::DebugPanic)
        } else if discriminant == 2 {
            Some(SysPhantom::CtStart)
        } else if discriminant == 3 {
            Some(SysPhantom::CtEnd)
        } else {
            None
        }
    }

    pub fn from_repr(discriminant: u16) -> (r: Option<SysPhantom>)
        ensures
            r == Self::spec_from_repr(discriminant),
    {
        match discriminant {
            0 => Some(SysPhantom::Nop),
            1 => Some(SysPhantom::DebugPanic),
            2 => Some(SysPhantom::CtStart),
            3 => Some(SysPhantom::CtEnd),
            _ => None,
        }
    }
}

/// The bytes of the sign extension of a 24-bit immediate: the top byte repeats the third.
pub open spec fn spec_imm_to_bytes(imm: u32) -> Seq<u8> {
    let le = le_bytes(imm);
    seq![le[0], le[1], le[2], le[2]]
}

/// The little-endian bytes of a 24-bit immediate, with the third byte repeated as the fourth.
pub fn imm_to_bytes(imm: u32) -> (r: [u8; 4])
    requires
        imm < 0x100_0000,
    ensures
        r@ == spec_imm_to_bytes(imm),
{
    let le = crate::limbs::u32_to_le_bytes(imm);
    [le[0], le[1], le[2], le[2]]
}

} // verus!
