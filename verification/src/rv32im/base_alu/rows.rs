//! What a row of the arithmetic and logic chip proves.
use crate::air::{array_vals, byte_vals, red_sends, red_seq, AdapterAirContext, AirBuilder, LookupRequest};
use crate::air_rows::{
    accepted, bytes_of, fresh, lemma_accepted, lemma_number_of_bytes, number_of,
};
use crate::field::number_theory::{finv, lemma_red_small};
use crate::field::PrimeField32;
use crate::instructions::{BaseAluOpcode, Instruction};
use crate::limbs::{lemma_limb_base, limb_base, limbs_in_range, limbs_value};
use crate::rv32im::base_alu::air::BaseAluCoreAir;
use crate::rv32im::base_alu::arithmetic::{alu_limbs, run_alu};
use crate::rv32im::base_alu::columns::BaseAluCoreCols;
use crate::rv32im::base_alu::laws::{
    law_alu_complete, law_alu_sound, law_alu_value, lemma_alu_limbs_in_range,
};
use crate::rv32im::base_alu::step::{alu_requests, BaseAluCoreRecord, BaseAluStep};
use vstd::arithmetic::div_mod::*;
use vstd::arithmetic::power::*;
use vstd::arithmetic::power2::*;
use vstd::prelude::*;

verus! {

/// The digits `z` are what operation `opcode` yields on the digits `x` and `y`, of which there are
/// `n` in base `base`: addition and subtraction solve their equations up to multiples of `base^n`,
/// and the bitwise operations apply to each digit.
pub open spec fn yields(
    opcode: int,
    x: Seq<int>,
    y: Seq<int>,
    z: Seq<int>,
    base: int,
    n: int,
) -> bool {
    let (a, b, c) = (number_of(x, base, n), number_of(y, base, n), number_of(z, base, n));
    let modulus = pow(base, n as nat);
    &&& 0 <= opcode <= 4
    &&& forall|i: int| 0 <= i < n ==> 0 <= #[trigger] z[i] < base
    &&& opcode == 0 ==> (c - b - a) % modulus == 0
    &&& opcode == 1 ==> (c + b - a) % modulus == 0
    &&& opcode == 2 ==> forall|i: int|
        0 <= i < n ==> #[trigger] z[i] == (x[i] as u8) ^ (y[i] as u8)
    &&& opcode == 3 ==> forall|i: int|
        0 <= i < n ==> #[trigger] z[i] == (x[i] as u8) | (y[i] as u8)
    &&& opcode == 4 ==> forall|i: int|
        0 <= i < n ==> #[trigger] z[i] == (x[i] as u8) & (y[i] as u8)
}

/// The digits are below the base.
pub open spec fn digits_below(x: Seq<int>, base: int, n: int) -> bool {
    forall|i: int| 0 <= i < n ==> 0 <= #[trigger] x[i] < base
}

proof fn lemma_yields(opcode: BaseAluOpcode, x: Seq<u8>, y: Seq<u8>, limb_bits: usize)
    requires
        limb_bits <= 8,
        x.len() == y.len(),
        limbs_in_range(x, limb_base(limb_bits)),
        limbs_in_range(y, limb_base(limb_bits)),
    ensures
        yields(
            opcode.index(),
            byte_vals(x),
            byte_vals(y),
            byte_vals(alu_limbs(opcode, x, y, limb_base(limb_bits))),
            limb_base(limb_bits),
            x.len() as int,
        ),
{
    let base = limb_base(limb_bits);
    let n = x.len() as int;
    let z = alu_limbs(opcode, x, y, base);
    lemma_limb_base(limb_bits);
    lemma_alu_limbs_in_range(opcode, x, y, limb_bits);
    law_alu_value(x, y, limb_bits);
    lemma_number_of_bytes(byte_vals(x), x, base, n);
    lemma_number_of_bytes(byte_vals(y), y, base, n);
    lemma_number_of_bytes(byte_vals(z), z, base, n);
    let (a, b) = (limbs_value(x, base, n), limbs_value(y, base, n));
    let modulus = pow(base, n as nat);
    lemma_pow_positive(base, n as nat);
    assert(((a + b) % modulus - b - a) % modulus == 0) by {
        lemma_sub_mod_noop((a + b) % modulus, a + b, modulus);
        lemma_mod_twice(a + b, modulus);
        lemma_small_mod(0, modulus as nat);
    }
    assert(((a - b) % modulus + b - a) % modulus == 0) by {
        lemma_sub_mod_noop((a - b) % modulus, a - b, modulus);
        lemma_mod_twice(a - b, modulus);
        lemma_small_mod(0, modulus as nat);
    }
}

/// Limbs in range yield limbs whose numbers solve the equations of the operations.
pub proof fn law_run_alu<const NUM_LIMBS: usize, const LIMB_BITS: usize>(
    opcode: BaseAluOpcode,
    x: [u8; NUM_LIMBS],
    y: [u8; NUM_LIMBS],
    z: [u8; NUM_LIMBS],
)
    requires
        LIMB_BITS <= 8,
        digits_below(byte_vals(x@), pow2(LIMB_BITS as nat) as int, NUM_LIMBS as int),
        digits_below(byte_vals(y@), pow2(LIMB_BITS as nat) as int, NUM_LIMBS as int),
        call_ensures(run_alu::<NUM_LIMBS, LIMB_BITS>, (opcode, &x, &y), z),
    ensures
        yields(
            opcode.index(),
            byte_vals(x@),
            byte_vals(y@),
            byte_vals(z@),
            pow2(LIMB_BITS as nat) as int,
            NUM_LIMBS as int,
        ),
{
    lemma_in_range(x@, LIMB_BITS);
    lemma_in_range(y@, LIMB_BITS);
    lemma_yields(opcode, x@, y@, LIMB_BITS);
}

proof fn lemma_in_range(x: Seq<u8>, limb_bits: usize)
    requires
        digits_below(byte_vals(x), pow2(limb_bits as nat) as int, x.len() as int),
    ensures
        limbs_in_range(x, limb_base(limb_bits)),
{
    assert forall|i: int| 0 <= i < x.len() implies #[trigger] x[i] < limb_base(limb_bits) by {
        assert(byte_vals(x)[i] == x[i]);
    }
}

/// Executing an instruction for the trace records its operands and its opcode, yields the limbs of
/// the result, and moves the program counter on by four.
pub proof fn law_alu_step<F, const NUM_LIMBS: usize, const LIMB_BITS: usize>(
    step: BaseAluStep<NUM_LIMBS, LIMB_BITS>,
    pc: &mut u32,
    instruction: Instruction<F>,
    reads: [[u8; NUM_LIMBS]; 2],
    r: ([[u8; NUM_LIMBS]; 1], BaseAluCoreRecord<NUM_LIMBS>),
)
    requires
        LIMB_BITS <= 8,
        step.offset <= instruction.opcode.index <= step.offset + 4,
        digits_below(byte_vals(reads[0]@), pow2(LIMB_BITS as nat) as int, NUM_LIMBS as int),
        digits_below(byte_vals(reads[1]@), pow2(LIMB_BITS as nat) as int, NUM_LIMBS as int),
        call_ensures(
            BaseAluStep::<NUM_LIMBS, LIMB_BITS>::execute::<F>,
            (&step, pc, &instruction, reads),
            r,
        ),
    ensures
        yields(
            instruction.opcode.index - step.offset,
            byte_vals(reads[0]@),
            byte_vals(reads[1]@),
            byte_vals(r.0[0]@),
            pow2(LIMB_BITS as nat) as int,
            NUM_LIMBS as int,
        ),
        r.1.b == reads[0],
        r.1.c == reads[1],
        r.1.local_opcode == instruction.opcode.index - step.offset,
        *final(pc) == (*old(pc) + 4) % 0x1_0000_0000,
{
    lemma_in_range(reads[0]@, LIMB_BITS);
    lemma_in_range(reads[1]@, LIMB_BITS);
    let op = opcode_at(instruction.opcode.index - step.offset);
    assert(r.1.is_of(op));
    lemma_yields(op, reads[0]@, reads[1]@, LIMB_BITS);
}

spec fn opcode_at(index: int) -> BaseAluOpcode {
    if index == 0 {
        BaseAluOpcode::ADD
    } else if index == 1 {
        BaseAluOpcode::SUB
    } else if index == 2 {
        BaseAluOpcode::XOR
    } else if index == 3 {
        BaseAluOpcode::OR
    } else {
        BaseAluOpcode::AND
    }
}

/// An accepted row that is valid shows the adapter an opcode of the chip, and a result that the
/// opcode yields on the operands that it shows.
pub proof fn law_alu_row_proves<F: PrimeField32, const NUM_LIMBS: usize, const LIMB_BITS: usize>(
    air: BaseAluCoreAir<NUM_LIMBS, LIMB_BITS>,
    builder: &mut AirBuilder<F>,
    cols: BaseAluCoreCols<F, NUM_LIMBS, LIMB_BITS>,
    ctx: AdapterAirContext<F, NUM_LIMBS>,
)
    requires
        LIMB_BITS <= 8,
        2 * pow2(LIMB_BITS as nat) <= F::order(),
        air.offset + 4 < F::order(),
        F::order() > 4,
        fresh(*old(builder)),
        call_ensures(
            BaseAluCoreAir::<NUM_LIMBS, LIMB_BITS>::eval::<F>,
            (&air, builder, &cols),
            ctx,
        ),
        accepted(*final(builder), pow2(LIMB_BITS as nat) as int),
        ctx.is_valid.val() != 0,
        digits_below(array_vals(ctx.reads[0]), pow2(LIMB_BITS as nat) as int, NUM_LIMBS as int),
        digits_below(array_vals(ctx.reads[1]), pow2(LIMB_BITS as nat) as int, NUM_LIMBS as int),
    ensures
        yields(
            ctx.opcode.val() - air.offset,
            array_vals(ctx.reads[0]),
            array_vals(ctx.reads[1]),
            array_vals(ctx.writes[0]),
            pow2(LIMB_BITS as nat) as int,
            NUM_LIMBS as int,
        ),
        ctx.is_valid.val() == 1,
        ctx.to_pc is None,
{
    let p = F::order();
    let base = limb_base(LIMB_BITS);
    let n = NUM_LIMBS as int;
    let row = cols.row();
    F::order_is_prime();
    lemma_limb_base(LIMB_BITS);
    let b = bytes_of(row.b);
    let c = bytes_of(row.c);
    assert(row.b =~= byte_vals(b));
    assert(row.c =~= byte_vals(c));
    lemma_in_range(b, LIMB_BITS);
    lemma_in_range(c, LIMB_BITS);
    let constraints = row.constraints(finv(p, base), n);
    let sends = row.sends(n);
    assert(final(builder).constraint_vals() =~= red_seq(constraints, p));
    assert(final(builder).send_vals() =~= red_sends(sends, p));
    lemma_accepted(*final(builder), constraints, sends, base);
    assert(row.canonical(n, p)) by {
        assert forall|i: int| 0 <= i < n implies 0 <= #[trigger] row.a[i] < p by {
            cols.a[i].val_is_canonical();
        }
        cols.opcode_add_flag.val_is_canonical();
        cols.opcode_sub_flag.val_is_canonical();
        cols.opcode_xor_flag.val_is_canonical();
        cols.opcode_or_flag.val_is_canonical();
        cols.opcode_and_flag.val_is_canonical();
    }
    let op = law_alu_sound(row, b, c, LIMB_BITS, p);
    lemma_red_small(op.index() + air.offset, p);
    lemma_yields(op, b, c, LIMB_BITS);
}

/// A row that is filled from a record is accepted and valid, shows the adapter the operands and the
/// opcode of the record, and sends the lookups that were requested, each once.
pub proof fn law_alu_filled_row_is_accepted<
    F: PrimeField32,
    const NUM_LIMBS: usize,
    const LIMB_BITS: usize,
>(
    step: BaseAluStep<NUM_LIMBS, LIMB_BITS>,
    record: BaseAluCoreRecord<NUM_LIMBS>,
    filled: (BaseAluCoreCols<F, NUM_LIMBS, LIMB_BITS>, Vec<LookupRequest>),
    air: BaseAluCoreAir<NUM_LIMBS, LIMB_BITS>,
    builder: &mut AirBuilder<F>,
    ctx: AdapterAirContext<F, NUM_LIMBS>,
)
    requires
        LIMB_BITS <= 8,
        2 * pow2(LIMB_BITS as nat) <= F::order(),
        air.offset + 4 < F::order(),
        record.local_opcode <= 4,
        digits_below(byte_vals(record.b@), pow2(LIMB_BITS as nat) as int, NUM_LIMBS as int),
        digits_below(byte_vals(record.c@), pow2(LIMB_BITS as nat) as int, NUM_LIMBS as int),
        call_ensures(
            BaseAluStep::<NUM_LIMBS, LIMB_BITS>::fill_trace_row::<F>,
            (&step, &record),
            filled,
        ),
        fresh(*old(builder)),
        call_ensures(
            BaseAluCoreAir::<NUM_LIMBS, LIMB_BITS>::eval::<F>,
            (&air, builder, &filled.0),
            ctx,
        ),
    ensures
        accepted(*final(builder), pow2(LIMB_BITS as nat) as int),
        ctx.is_valid.val() == 1,
        ctx.opcode.val() == air.offset + record.local_opcode,
        array_vals(ctx.reads[0]) == byte_vals(record.b@),
        array_vals(ctx.reads[1]) == byte_vals(record.c@),
        final(builder).sends@.len() == filled.1@.len(),
        forall|i: int|
            0 <= i < filled.1@.len() ==> {
                let send = #[trigger] final(builder).sends@[i];
                &&& send.count.val() == 1
                &&& send.kind == filled.1@[i].kind
                &&& send.x.val() == filled.1@[i].x
                &&& send.y.val() == filled.1@[i].y
            },
{
    let p = F::order();
    let base = limb_base(LIMB_BITS);
    let n = NUM_LIMBS as int;
    let row = filled.0.row();
    F::order_is_prime();
    lemma_limb_base(LIMB_BITS);
    lemma_in_range(record.b@, LIMB_BITS);
    lemma_in_range(record.c@, LIMB_BITS);
    let op = opcode_at(record.local_opcode as int);
    assert(record.is_of(op));
    law_alu_complete(row, op, record.b@, record.c@, LIMB_BITS, p);
    let constraints = row.constraints(finv(p, base), n);
    let sends = row.sends(n);
    assert(final(builder).constraint_vals() =~= red_seq(constraints, p));
    assert(final(builder).send_vals() =~= red_sends(sends, p));
    lemma_accepted(*final(builder), constraints, sends, base);
    lemma_red_small(op.index() + air.offset, p);
    lemma_red_small(1, p);
    let a = alu_limbs(op, record.b@, record.c@, base);
    let requests = alu_requests(op, a, record.b@, record.c@);
    assert(final(builder).send_vals().len() == requests.len());
    assert forall|i: int| 0 <= i < filled.1@.len() implies {
        let send = #[trigger] final(builder).sends@[i];
        &&& send.count.val() == 1
        &&& send.kind == filled.1@[i].kind
        &&& send.x.val() == filled.1@[i].x
        &&& send.y.val() == filled.1@[i].y
    } by {
        assert(final(builder).send_vals()[i] == requests[i].as_send());
    }
    assert forall|i: int| 0 <= i < sends.len() implies (#[trigger] sends[i]).reduced(p).holds(
        base,
    ) by {
        assert(red_sends(sends, p)[i] == requests[i].as_send());
    }
}

/// The opcodes are named in the order of their indices.
pub proof fn law_alu_opcode_names<const NUM_LIMBS: usize, const LIMB_BITS: usize>(
    step: BaseAluStep<NUM_LIMBS, LIMB_BITS>,
    opcode: usize,
    r: String,
)
    requires
        step.offset <= opcode <= step.offset + 4,
        call_ensures(
            BaseAluStep::<NUM_LIMBS, LIMB_BITS>::get_opcode_name,
            (&step, opcode),
            r,
        ),
    ensures
        opcode == step.offset ==> r@ == "ADD"@,
        opcode == step.offset + 1 ==> r@ == "SUB"@,
        opcode == step.offset + 2 ==> r@ == "XOR"@,
        opcode == step.offset + 3 ==> r@ == "OR"@,
        opcode == step.offset + 4 ==> r@ == "AND"@,
{
    let op = opcode_at(opcode - step.offset);
    assert(r@ == op.spec_name());
}

} // verus!
