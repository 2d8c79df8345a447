//! Opcodes by their numbers and names, and numbers by their bytes.
use crate::instructions::{
    imm_to_bytes, BaseAluOpcode, BranchEqualOpcode, FieldArithmeticOpcode, LessThanOpcode,
    Rv32LoadStoreOpcode, SysPhantom, VmOpcode,
};
use crate::limbs::{i32_from_le_bytes, limb_base_u32, u32_from_le_bytes, u32_to_le_bytes};
use vstd::arithmetic::power2::*;
use vstd::prelude::*;

verus! {

/// The arithmetic opcodes are, from zero on, addition, subtraction, exclusive or, or, and.
pub proof fn law_alu_opcodes(n: usize, op: BaseAluOpcode, m: u8)
    requires
        n < 5,
        call_ensures(BaseAluOpcode::from_usize, (n,), op),
        call_ensures(BaseAluOpcode::to_u8, (op,), m),
    ensures
        m == n,
        n == 0 <==> op is ADD,
        n == 1 <==> op is SUB,
        n == 2 <==> op is XOR,
        n == 3 <==> op is OR,
        n == 4 <==> op is AND,
{
}

/// The comparison opcodes are, from zero on, signed and unsigned less-than.
pub proof fn law_comparison_opcodes(n: usize, op: LessThanOpcode, m: u8)
    requires
        n < 2,
        call_ensures(LessThanOpcode::from_usize, (n,), op),
        call_ensures(LessThanOpcode::to_u8, (op,), m),
    ensures
        m == n,
        n == 0 <==> op is SLT,
        n == 1 <==> op is SLTU,
{
}

/// The opcodes of loads and stores, from zero on.
pub proof fn law_loadstore_opcodes(n: usize, op: Rv32LoadStoreOpcode, m: u8)
    requires
        n < 8,
        call_ensures(Rv32LoadStoreOpcode::from_usize, (n,), op),
        call_ensures(Rv32LoadStoreOpcode::to_u8, (op,), m),
    ensures
        m == n,
        n == 0 <==> op is LOADW,
        n == 1 <==> op is LOADBU,
        n == 2 <==> op is LOADHU,
        n == 3 <==> op is STOREW,
        n == 4 <==> op is STOREH,
        n == 5 <==> op is STOREB,
        n == 6 <==> op is LOADB,
        n == 7 <==> op is LOADH,
        Rv32LoadStoreOpcode::CLASS_OFFSET == 0x210,
{
}

/// The branch opcodes are, from zero on, those on equality and on inequality.
pub proof fn law_branch_opcodes(n: usize, op: BranchEqualOpcode)
    requires
        n < 2,
        call_ensures(BranchEqualOpcode::from_usize, (n,), op),
    ensures
        n == 0 <==> op is BEQ,
        n == 1 <==> op is BNE,
{
}

/// The opcodes of the field are, from zero on, addition, subtraction, multiplication and division.
pub proof fn law_field_opcodes(n: usize, op: FieldArithmeticOpcode, m: u8)
    requires
        n < 4,
        call_ensures(FieldArithmeticOpcode::from_usize, (n,), op),
        call_ensures(FieldArithmeticOpcode::to_u8, (op,), m),
    ensures
        m == n,
        n == 0 <==> op is ADD,
        n == 1 <==> op is SUB,
        n == 2 <==> op is MUL,
        n == 3 <==> op is DIV,
        FieldArithmeticOpcode::CLASS_OFFSET == 0x130,
{
}

/// Opcodes are named as they are written in assembly.
pub proof fn law_alu_names(op: BaseAluOpcode, name: String)
    requires
        call_ensures(BaseAluOpcode::name, (op,), name),
    ensures
        op is ADD ==> name@ == "ADD"@,
        op is SUB ==> name@ == "SUB"@,
        op is XOR ==> name@ == "XOR"@,
        op is OR ==> name@ == "OR"@,
        op is AND ==> name@ == "AND"@,
{
}

/// Comparisons are named as they are written in assembly.
pub proof fn law_comparison_names(op: LessThanOpcode, name: String)
    requires
        call_ensures(LessThanOpcode::name, (op,), name),
    ensures
        op is SLT ==> name@ == "SLT"@,
        op is SLTU ==> name@ == "SLTU"@,
{
}

/// Loads and stores have the names of their opcodes.
pub proof fn law_loadstore_names(op: Rv32LoadStoreOpcode, name: String)
    requires
        call_ensures(Rv32LoadStoreOpcode::name, (op,), name),
    ensures
        op is LOADW ==> name@ == "LOADW"@,
        op is LOADBU ==> name@ == "LOADBU"@,
        op is LOADHU ==> name@ == "LOADHU"@,
        op is STOREW ==> name@ == "STOREW"@,
        op is STOREH ==> name@ == "STOREH"@,
        op is STOREB ==> name@ == "STOREB"@,
        op is LOADB ==> name@ == "LOADB"@,
        op is LOADH ==> name@ == "LOADH"@,
{
}

/// Branches are named as they are written in assembly.
pub proof fn law_branch_names(op: BranchEqualOpcode, name: String)
    requires
        call_ensures(BranchEqualOpcode::name, (op,), name),
    ensures
        op is BEQ ==> name@ == "BEQ"@,
        op is BNE ==> name@ == "BNE"@,
{
}

/// Field operations have the names of their opcodes.
pub proof fn law_field_names(op: FieldArithmeticOpcode, name: String)
    requires
        call_ensures(FieldArithmeticOpcode::name, (op,), name),
    ensures
        op is ADD ==> name@ == "ADD"@,
        op is SUB ==> name@ == "SUB"@,
        op is MUL ==> name@ == "MUL"@,
        op is DIV ==> name@ == "DIV"@,
{
}

/// The local number of an opcode and the offset of its class sum to its number.
pub proof fn law_local_opcode(op: VmOpcode, offset: usize, n: usize, local: usize)
    requires
        call_ensures(VmOpcode::as_usize, (op,), n),
        call_ensures(VmOpcode::local_opcode_idx, (op, offset), local),
    ensures
        n == op.index,
        local + offset == n,
{
}

/// The phantom instructions of the system have the numbers zero to three, and no other number is
/// one.
pub proof fn law_phantoms(n: u16, r: Option<SysPhantom>)
    requires
        call_ensures(SysPhantom::from_repr, (n,), r),
    ensures
        r is None <==> n > 3,
        r matches Some(p) ==> {
            &&& n == 0 <==> p is Nop
            &&& n == 1 <==> p is DebugPanic
            &&& n == 2 <==> p is CtStart
            &&& n == 3 <==> p is CtEnd
        },
{
}

/// A number is the sum of its bytes, each at its power of 256, the lowest byte first.
pub proof fn law_bytes_of_number(x: u32, r: [u8; 4])
    requires
        call_ensures(u32_to_le_bytes, (x,), r),
    ensures
        x == r@[0] + 0x100 * r@[1] + 0x1_0000 * r@[2] + 0x100_0000 * r@[3],
{
}

/// Bytes stand for the sum of each at its power of 256, the lowest byte first.
pub proof fn law_number_of_bytes(b: [u8; 4], r: u32)
    requires
        call_ensures(u32_from_le_bytes, (b,), r),
    ensures
        r == b@[0] + 0x100 * b@[1] + 0x1_0000 * b@[2] + 0x100_0000 * b@[3],
{
}

/// A signed number is congruent to the unsigned number of the same bytes.
pub proof fn law_signed_number_of_bytes(b: [u8; 4], r: i32, u: u32)
    requires
        call_ensures(i32_from_le_bytes, (b,), r),
        call_ensures(u32_from_le_bytes, (b,), u),
    ensures
        r == u || r == u - 0x1_0000_0000,
        r < 0 <==> b@[3] >= 0x80,
{
}

/// Bytes and numbers determine each other.
pub proof fn law_bytes_round_trip(x: u32, b: [u8; 4], y: u32)
    requires
        call_ensures(u32_to_le_bytes, (x,), b),
        call_ensures(u32_from_le_bytes, (b,), y),
    ensures
        y == x,
{
}

/// The bytes of an immediate are those of the number, but for the highest, which repeats the one
/// below it.
pub proof fn law_immediate_bytes(imm: u32, r: [u8; 4])
    requires
        imm < 0x100_0000,
        call_ensures(imm_to_bytes, (imm,), r),
    ensures
        imm == r@[0] + 0x100 * r@[1] + 0x1_0000 * r@[2],
        r@[3] == r@[2],
{
}

/// The base of limbs is the power of two with their number of bits.
pub proof fn law_base_of_limbs<const BITS: usize>(order: u32, r: u32)
    requires
        call_ensures(limb_base_u32::<BITS>, (order,), r),
    ensures
        r == pow2(BITS as nat),
{
}

} // verus!
