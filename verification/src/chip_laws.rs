//! The widths of the chips, their opcodes, and the sizes of their pre-computed data.
use crate::arch::execution_mode::E2PreCompute;
use crate::field::PrimeField32;
use crate::instructions::{
    BranchEqualOpcode, FieldArithmeticOpcode, LessThanOpcode, Rv32LoadStoreOpcode,
};
use crate::native::branch_eq::chip::{NativeBranchEqualOpcode, NativeBranchEqualStep};
use crate::native::branch_eq::execute::NativeBranchEqualPreCompute;
use crate::native::field_arithmetic::chip::{FieldArithmeticCoreAir, FieldArithmeticCoreStep};
use crate::native::field_arithmetic::execute::FieldArithmeticPreCompute;
use crate::native::{transmute_field_to_u32, transmute_u32_to_field};
use crate::rv32im::base_alu::air::BaseAluCoreAir;
use crate::rv32im::base_alu::execute::{
    AddOp, AluOp, AndOp, BaseAluPreCompute, OrOp, SubOp, XorOp,
};
use crate::rv32im::base_alu::step::BaseAluStep;
use crate::rv32im::less_than::air::LessThanCoreAir;
use crate::rv32im::less_than::execute::LessThanPreCompute;
use crate::rv32im::less_than::step::LessThanStep;
use crate::rv32im::loadstore::air::LoadStoreCoreAir;
use crate::rv32im::loadstore::execute::LoadStorePreCompute;
use crate::rv32im::loadstore::step::LoadStoreStep;
use vstd::layout::size_of;
use vstd::prelude::*;

verus! {

/// A row of the arithmetic chip has the limbs of the result and of both operands, and a flag for each
/// of the five operations.
pub proof fn law_alu_air<const N: usize, const B: usize>(
    offset: usize,
    air: BaseAluCoreAir<N, B>,
    width: usize,
    first: usize,
)
    requires
        call_ensures(BaseAluCoreAir::<N, B>::new, (offset,), air),
        call_ensures(BaseAluCoreAir::<N, B>::width, (&air,), width),
        call_ensures(BaseAluCoreAir::<N, B>::start_offset, (&air,), first),
    ensures
        width == N + N + N + 5,
        first == offset,
{
}

/// A row of the comparison chip has the limbs of both operands and of the marker, the two top limbs,
/// the difference, the result, and a flag for each of the two comparisons.
pub proof fn law_comparison_air<const N: usize, const B: usize>(
    offset: usize,
    air: LessThanCoreAir<N, B>,
    width: usize,
    first: usize,
)
    requires
        call_ensures(LessThanCoreAir::<N, B>::new, (offset,), air),
        call_ensures(LessThanCoreAir::<N, B>::width, (&air,), width),
        call_ensures(LessThanCoreAir::<N, B>::start_offset, (&air,), first),
    ensures
        width == N + N + 1 + 2 + 2 + N + 1,
        first == offset,
{
}

/// A row of the load and store chip has four flags, whether it is valid and a load, and the cells of
/// the data that moves, of what the target held and of what it holds.
pub proof fn law_loadstore_air<const N: usize>(
    offset: usize,
    air: LoadStoreCoreAir<N>,
    width: usize,
    first: usize,
)
    requires
        call_ensures(LoadStoreCoreAir::<N>::new, (offset,), air),
        call_ensures(LoadStoreCoreAir::<N>::width, (&air,), width),
        call_ensures(LoadStoreCoreAir::<N>::start_offset, (&air,), first),
    ensures
        width == 4 + 2 + N + N + N,
        first == offset,
{
}

/// A row of the field arithmetic chip has three values, a flag for each of the four operations, and
/// the inverse of the divisor. Its opcodes start at 0x130.
pub proof fn law_field_air(air: FieldArithmeticCoreAir, width: usize, first: usize)
    requires
        call_ensures(FieldArithmeticCoreAir::width, (&air,), width),
        call_ensures(FieldArithmeticCoreAir::start_offset, (&air,), first),
    ensures
        width == 3 + 4 + 1,
        first == 0x130,
{
}

/// The sizes of pre-computed data are those of their types, without and with the index of the chip.
pub proof fn law_pre_compute_sizes<const N: usize, const B: usize>(
    alu: BaseAluStep<4, B>,
    comparison: LessThanStep<4, B>,
    loadstore: LoadStoreStep<N>,
    field: FieldArithmeticCoreStep,
    branch: NativeBranchEqualStep,
    e1: (usize, usize, usize, usize, usize),
    e2: (usize, usize, usize, usize, usize),
)
    requires
        call_ensures(BaseAluStep::<4, B>::pre_compute_size, (&alu,), e1.0),
        call_ensures(LessThanStep::<4, B>::pre_compute_size, (&comparison,), e1.1),
        call_ensures(LoadStoreStep::<N>::pre_compute_size, (&loadstore,), e1.2),
        call_ensures(FieldArithmeticCoreStep::pre_compute_size, (&field,), e1.3),
        call_ensures(NativeBranchEqualStep::pre_compute_size, (&branch,), e1.4),
        call_ensures(BaseAluStep::<4, B>::e2_pre_compute_size, (&alu,), e2.0),
        call_ensures(LessThanStep::<4, B>::e2_pre_compute_size, (&comparison,), e2.1),
        call_ensures(LoadStoreStep::<N>::e2_pre_compute_size, (&loadstore,), e2.2),
        call_ensures(FieldArithmeticCoreStep::e2_pre_compute_size, (&field,), e2.3),
        call_ensures(NativeBranchEqualStep::e2_pre_compute_size, (&branch,), e2.4),
    ensures
        e1.0 == size_of::<BaseAluPreCompute>(),
        e1.1 == size_of::<LessThanPreCompute>(),
        e1.2 == size_of::<LoadStorePreCompute>(),
        e1.3 == size_of::<FieldArithmeticPreCompute>(),
        e1.4 == size_of::<NativeBranchEqualPreCompute>(),
        e2.0 == size_of::<E2PreCompute<BaseAluPreCompute>>(),
        e2.1 == size_of::<E2PreCompute<LessThanPreCompute>>(),
        e2.2 == size_of::<E2PreCompute<LoadStorePreCompute>>(),
        e2.3 == size_of::<E2PreCompute<FieldArithmeticPreCompute>>(),
        e2.4 == size_of::<E2PreCompute<NativeBranchEqualPreCompute>>(),
{
}

/// The word of an element is its canonical value, and gives the element back.
pub proof fn law_words_of_elements<F: PrimeField32>(x: F, n: u32, y: F)
    requires
        call_ensures(transmute_field_to_u32::<F>, (&x,), n),
        call_ensures(transmute_u32_to_field::<F>, (&n,), y),
    ensures
        n == x.val(),
        y.val() == x.val(),
{
}

/// Steps have the first opcode that they are given, and the step of branches the distance between
/// instructions.
pub proof fn law_new_steps<const N: usize, const B: usize>(
    offset: usize,
    pc_step: u32,
    alu: BaseAluStep<N, B>,
    comparison: LessThanStep<N, B>,
    loadstore: LoadStoreStep<N>,
    branch: NativeBranchEqualStep,
)
    requires
        call_ensures(BaseAluStep::<N, B>::new, (offset,), alu),
        call_ensures(LessThanStep::<N, B>::new, (offset,), comparison),
        call_ensures(LoadStoreStep::<N>::new, (offset,), loadstore),
        call_ensures(NativeBranchEqualStep::new, (offset, pc_step), branch),
    ensures
        alu.offset == offset,
        comparison.offset == offset,
        loadstore.offset == offset,
        branch.offset == offset,
        branch.pc_step == pc_step,
{
}

/// The comparison chip names its opcodes from its first one on.
pub proof fn law_comparison_opcode_names<const N: usize, const B: usize>(
    step: LessThanStep<N, B>,
    opcode: usize,
    r: String,
)
    requires
        call_ensures(LessThanStep::<N, B>::get_opcode_name, (&step, opcode), r),
    ensures
        opcode == step.offset ==> r@ == "SLT"@,
        opcode == step.offset + 1 ==> r@ == "SLTU"@,
{
    if opcode == step.offset {
        assert(r@ == LessThanOpcode::SLT.spec_name());
    } else if opcode == step.offset + 1 {
        assert(r@ == LessThanOpcode::SLTU.spec_name());
    }
}

/// The load and store chip names its opcodes from its first one on.
pub proof fn law_loadstore_opcode_names<const N: usize>(
    step: LoadStoreStep<N>,
    opcode: usize,
    r: String,
)
    requires
        call_ensures(LoadStoreStep::<N>::get_opcode_name, (&step, opcode), r),
    ensures
        opcode == step.offset ==> r@ == "LOADW"@,
        opcode == step.offset + 1 ==> r@ == "LOADBU"@,
        opcode == step.offset + 2 ==> r@ == "LOADHU"@,
        opcode == step.offset + 3 ==> r@ == "STOREW"@,
        opcode == step.offset + 4 ==> r@ == "STOREH"@,
        opcode == step.offset + 5 ==> r@ == "STOREB"@,
        opcode == step.offset + 6 ==> r@ == "LOADB"@,
        opcode == step.offset + 7 ==> r@ == "LOADH"@,
{
    let n = opcode - step.offset;
    assert(n == 0 ==> r@ == Rv32LoadStoreOpcode::LOADW.spec_name());
    assert(n == 1 ==> r@ == Rv32LoadStoreOpcode::LOADBU.spec_name());
    assert(n == 2 ==> r@ == Rv32LoadStoreOpcode::LOADHU.spec_name());
    assert(n == 3 ==> r@ == Rv32LoadStoreOpcode::STOREW.spec_name());
    assert(n == 4 ==> r@ == Rv32LoadStoreOpcode::STOREH.spec_name());
    assert(n == 5 ==> r@ == Rv32LoadStoreOpcode::STOREB.spec_name());
    assert(n == 6 ==> r@ == Rv32LoadStoreOpcode::LOADB.spec_name());
    assert(n == 7 ==> r@ == Rv32LoadStoreOpcode::LOADH.spec_name());
}

/// The field arithmetic chip names its opcodes from 0x130 on.
pub proof fn law_field_opcode_names(step: FieldArithmeticCoreStep, opcode: usize, r: String)
    requires
        call_ensures(FieldArithmeticCoreStep::get_opcode_name, (&step, opcode), r),
    ensures
        opcode == 0x130 ==> r@ == "ADD"@,
        opcode == 0x131 ==> r@ == "SUB"@,
        opcode == 0x132 ==> r@ == "MUL"@,
        opcode == 0x133 ==> r@ == "DIV"@,
{
    assert(opcode == 0x130 ==> r@ == FieldArithmeticOpcode::ADD.spec_name());
    assert(opcode == 0x131 ==> r@ == FieldArithmeticOpcode::SUB.spec_name());
    assert(opcode == 0x132 ==> r@ == FieldArithmeticOpcode::MUL.spec_name());
    assert(opcode == 0x133 ==> r@ == FieldArithmeticOpcode::DIV.spec_name());
}

/// The branch chip names its opcodes from its first one on, each inside the name of its kind.
pub proof fn law_branch_opcode_names(
    step: NativeBranchEqualStep,
    opcode: usize,
    r: String,
    op: NativeBranchEqualOpcode,
    name: String,
)
    requires
        call_ensures(NativeBranchEqualStep::get_opcode_name, (&step, opcode), r),
        call_ensures(NativeBranchEqualOpcode::name, (op,), name),
    ensures
        opcode == step.offset ==> r@ == "NativeBranchEqualOpcode(BEQ)"@,
        opcode == step.offset + 1 ==> r@ == "NativeBranchEqualOpcode(BNE)"@,
        op.0 is BEQ ==> name@ == "NativeBranchEqualOpcode(BEQ)"@,
        op.0 is BNE ==> name@ == "NativeBranchEqualOpcode(BNE)"@,
{
    assert(BranchEqualOpcode::BEQ.index() == 0);
    assert(BranchEqualOpcode::BNE.index() == 1);
}

/// The operations on registers add and subtract modulo `2^32`, and combine bits.
pub proof fn law_register_operations(x: u32, y: u32, r: (u32, u32, u32, u32, u32))
    requires
        call_ensures(<AddOp as AluOp>::compute, (x, y), r.0),
        call_ensures(<SubOp as AluOp>::compute, (x, y), r.1),
        call_ensures(<XorOp as AluOp>::compute, (x, y), r.2),
        call_ensures(<OrOp as AluOp>::compute, (x, y), r.3),
        call_ensures(<AndOp as AluOp>::compute, (x, y), r.4),
    ensures
        r.0 == x + y || r.0 == x + y - 0x1_0000_0000,
        r.1 + y == x || r.1 + y == x + 0x1_0000_0000,
        r.2 == x ^ y,
        r.3 == x | y,
        r.4 == x & y,
{
}

} // verus!
