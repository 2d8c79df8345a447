//! What a row of the comparison chip proves.
use crate::air::{
    array_vals, byte_vals, red_sends, red_seq, AdapterAirContext, AirBuilder, LookupRequest,
};
use crate::air_rows::{
    accepted, bytes_of, fresh, lemma_accepted, lemma_number_of_bytes, number_of,
};
use crate::field::number_theory::lemma_red_small;
use crate::field::PrimeField32;
use crate::instructions::Instruction;
use crate::limbs::{
    lemma_limb_base, lemma_limbs_value_bound, limb_base, limbs_in_range, limbs_value,
};
use crate::rv32im::base_alu::rows::digits_below;
use crate::rv32im::less_than::air::LessThanCoreAir;
use crate::rv32im::less_than::columns::LessThanCoreCols;
use crate::rv32im::less_than::comparison::{
    half_base, is_top_difference, lemma_less_at, lemma_sign, limbs_signed_value, run_less_than,
    sign_set,
};
use crate::rv32im::less_than::laws::{law_less_than_complete, law_less_than_sound};
use crate::rv32im::less_than::step::{
    less_than_requests, less_than_row, LessThanCoreRecord, LessThanStep,
};
use crate::system::words::twos_complement;
use vstd::arithmetic::power::*;
use vstd::arithmetic::power2::*;
use vstd::prelude::*;

verus! {

/// The number of `n` digits, in two's complement if signed.
pub open spec fn reading(signed: bool, x: Seq<int>, base: int, n: int) -> int {
    if signed {
        twos_complement(number_of(x, base, n), pow(base, n as nat))
    } else {
        number_of(x, base, n)
    }
}

/// The digits are those of one or of zero, according to the condition.
pub open spec fn says(condition: bool, x: Seq<int>, n: int) -> bool {
    &&& x[0] == (if condition {
        1int
    } else {
        0
    })
    &&& forall|i: int| 1 <= i < n ==> #[trigger] x[i] == 0
}

proof fn lemma_in_range(x: Seq<u8>, limb_bits: usize)
    requires
        digits_below(byte_vals(x), pow2(limb_bits as nat) as int, x.len() as int),
    ensures
        limbs_in_range(x, limb_base(limb_bits)),
{
    assert forall|i: int| 0 <= i < x.len() implies #[trigger] x[i] < limb_base(limb_bits) by {
        assert(byte_vals(x)[i] == x[i]);
    }
}

/// The sign of limbs is that of two's complement.
proof fn lemma_reading(x: Seq<u8>, limb_bits: usize)
    requires
        1 <= limb_bits <= 8,
        x.len() >= 1,
        limbs_in_range(x, limb_base(limb_bits)),
    ensures
        reading(true, byte_vals(x), limb_base(limb_bits), x.len() as int) == limbs_signed_value(
            x,
            limb_bits,
        ),
        reading(false, byte_vals(x), limb_base(limb_bits), x.len() as int) == limbs_value(
            x,
            limb_base(limb_bits),
            x.len() as int,
        ),
        sign_set(true, x, limb_bits) == (reading(
            true,
            byte_vals(x),
            limb_base(limb_bits),
            x.len() as int,
        ) < 0),
{
    let base = limb_base(limb_bits);
    let half = half_base(limb_bits);
    let n = x.len() as int;
    lemma_limb_base(limb_bits);
    lemma_limb_base((limb_bits - 1) as usize);
    lemma_number_of_bytes(byte_vals(x), x, base, n);
    lemma_limbs_value_bound(x, base, n);
    lemma_limbs_value_bound(x, base, n - 1);
    lemma_sign(x[n - 1] as int, half);
    let w = pow(base, (n - 1) as nat);
    let low = limbs_value(x, base, n - 1);
    let top = x[n - 1] as int;
    lemma_pow_adds(base, (n - 1) as nat, 1);
    lemma_pow1(base);
    assert(pow(base, n as nat) == w * base);
    assert(2 * (low + top * w) < w * base <==> top < half) by (nonlinear_arith)
        requires
            0 <= low < w,
            base == 2 * half,
            0 <= top < base,
    ;
}

/// Comparing limbs compares the numbers that they stand for, in two's complement if signed. It also
/// tells the most significant limb at which they differ, and which of them are negative.
pub proof fn law_run_less_than<const NUM_LIMBS: usize, const LIMB_BITS: usize>(
    is_slt: bool,
    x: [u8; NUM_LIMBS],
    y: [u8; NUM_LIMBS],
    r: (bool, usize, bool, bool),
)
    requires
        NUM_LIMBS >= 1,
        1 <= LIMB_BITS <= 8,
        digits_below(byte_vals(x@), pow2(LIMB_BITS as nat) as int, NUM_LIMBS as int),
        digits_below(byte_vals(y@), pow2(LIMB_BITS as nat) as int, NUM_LIMBS as int),
        call_ensures(run_less_than::<NUM_LIMBS, LIMB_BITS>, (is_slt, &x, &y), r),
    ensures
        ({
            let base = pow2(LIMB_BITS as nat) as int;
            let n = NUM_LIMBS as int;
            let a = reading(is_slt, byte_vals(x@), base, n);
            let b = reading(is_slt, byte_vals(y@), base, n);
            &&& r.0 == (a < b)
            &&& r.1 <= NUM_LIMBS
            &&& r.1 < NUM_LIMBS ==> x[r.1 as int] != y[r.1 as int]
            &&& forall|i: int|
                0 <= i < n && (r.1 < i || r.1 == NUM_LIMBS) ==> #[trigger] x[i] == y[i]
            &&& r.2 == (a < 0)
            &&& r.3 == (b < 0)
        }),
{
    let base = limb_base(LIMB_BITS);
    let n = NUM_LIMBS as int;
    lemma_in_range(x@, LIMB_BITS);
    lemma_in_range(y@, LIMB_BITS);
    lemma_reading(x@, LIMB_BITS);
    lemma_reading(y@, LIMB_BITS);
    lemma_limb_base(LIMB_BITS);
    lemma_limbs_value_bound(x@, base, n);
    lemma_limbs_value_bound(y@, base, n);
    assert forall|i: int|
        0 <= i < n && (r.1 < i || r.1 == NUM_LIMBS) implies #[trigger] x[i] == y[i] by {
        assert(x@[i] == y@[i]);
    }
}

/// Limbs have a most significant one at which they differ, unless they are equal.
proof fn lemma_top_exists(x: Seq<u8>, y: Seq<u8>, n: int) -> (i: int)
    requires
        x.len() == y.len(),
        0 <= n <= x.len(),
        forall|j: int| n <= j < x.len() ==> #[trigger] x[j] == y[j],
    ensures
        is_top_difference(x, y, i),
    decreases n,
{
    if n == 0 {
        x.len() as int
    } else if x[n - 1] != y[n - 1] {
        n - 1
    } else {
        lemma_top_exists(x, y, n - 1)
    }
}

/// Executing an instruction for the trace records its operands and its opcode, yields one if the
/// first operand is less than the second and zero otherwise, and moves the program counter on by
/// four. The first opcode compares in two's complement, the second one without sign.
pub proof fn law_comparison_step<F, const NUM_LIMBS: usize, const LIMB_BITS: usize>(
    step: LessThanStep<NUM_LIMBS, LIMB_BITS>,
    pc: &mut u32,
    instruction: Instruction<F>,
    reads: [[u8; NUM_LIMBS]; 2],
    r: ([[u8; NUM_LIMBS]; 1], LessThanCoreRecord<NUM_LIMBS, LIMB_BITS>),
)
    requires
        NUM_LIMBS >= 1,
        1 <= LIMB_BITS <= 8,
        step.offset <= instruction.opcode.index <= step.offset + 1,
        digits_below(byte_vals(reads[0]@), pow2(LIMB_BITS as nat) as int, NUM_LIMBS as int),
        digits_below(byte_vals(reads[1]@), pow2(LIMB_BITS as nat) as int, NUM_LIMBS as int),
        call_ensures(
            LessThanStep::<NUM_LIMBS, LIMB_BITS>::execute::<F>,
            (&step, pc, &instruction, reads),
            r,
        ),
    ensures
        ({
            let base = pow2(LIMB_BITS as nat) as int;
            let n = NUM_LIMBS as int;
            let signed = instruction.opcode.index == step.offset;
            says(
                reading(signed, byte_vals(reads[0]@), base, n) < reading(
                    signed,
                    byte_vals(reads[1]@),
                    base,
                    n,
                ),
                byte_vals(r.0[0]@),
                n,
            )
        }),
        r.1.b == reads[0],
        r.1.c == reads[1],
        r.1.local_opcode == instruction.opcode.index - step.offset,
        *final(pc) == (*old(pc) + 4) % 0x1_0000_0000,
{
    lemma_in_range(reads[0]@, LIMB_BITS);
    lemma_in_range(reads[1]@, LIMB_BITS);
    lemma_reading(reads[0]@, LIMB_BITS);
    lemma_reading(reads[1]@, LIMB_BITS);
    let top = lemma_top_exists(reads[0]@, reads[1]@, NUM_LIMBS as int);
    lemma_less_at(r.1.is_slt(), reads[0]@, reads[1]@, LIMB_BITS, top);
    assert forall|i: int| 1 <= i < NUM_LIMBS implies #[trigger] byte_vals(r.0[0]@)[i] == 0 by {
        assert(r.0[0][i] == 0);
    }
}

/// The values of a row are canonical.
proof fn lemma_canonical<F: PrimeField32, const NUM_LIMBS: usize, const LIMB_BITS: usize>(
    cols: LessThanCoreCols<F, NUM_LIMBS, LIMB_BITS>,
)
    ensures
        cols.row().canonical(cols.row().limbs(), F::order()),
{
    let row = cols.row();
    assert forall|i: int| 0 <= i < row.limbs() implies 0 <= #[trigger] row.marker[i]
        < F::order() by {
        cols.diff_marker[i].val_is_canonical();
    }
    cols.cmp_result.val_is_canonical();
    cols.opcode_slt_flag.val_is_canonical();
    cols.opcode_sltu_flag.val_is_canonical();
    cols.b_msb_f.val_is_canonical();
    cols.c_msb_f.val_is_canonical();
    cols.diff_val.val_is_canonical();
}

/// An accepted row that is valid shows the adapter an opcode of the chip, and as result one if the
/// first operand that it shows is less than the second, and zero otherwise.
pub proof fn law_comparison_row_proves<
    F: PrimeField32,
    const NUM_LIMBS: usize,
    const LIMB_BITS: usize,
>(
    air: LessThanCoreAir<NUM_LIMBS, LIMB_BITS>,
    builder: &mut AirBuilder<F>,
    cols: LessThanCoreCols<F, NUM_LIMBS, LIMB_BITS>,
    ctx: AdapterAirContext<F, NUM_LIMBS>,
)
    requires
        1 <= NUM_LIMBS < F::order(),
        1 <= LIMB_BITS <= 8,
        2 * pow2(LIMB_BITS as nat) < F::order(),
        air.spec_offset() + 1 < F::order(),
        fresh(*old(builder)),
        call_ensures(
            LessThanCoreAir::<NUM_LIMBS, LIMB_BITS>::eval::<F>,
            (&air, builder, &cols),
            ctx,
        ),
        accepted(*final(builder), pow2(LIMB_BITS as nat) as int),
        ctx.is_valid.val() != 0,
        digits_below(array_vals(ctx.reads[0]), pow2(LIMB_BITS as nat) as int, NUM_LIMBS as int),
        digits_below(array_vals(ctx.reads[1]), pow2(LIMB_BITS as nat) as int, NUM_LIMBS as int),
    ensures
        ({
            let base = pow2(LIMB_BITS as nat) as int;
            let n = NUM_LIMBS as int;
            let signed = ctx.opcode.val() == air.spec_offset();
            says(
                reading(signed, array_vals(ctx.reads[0]), base, n) < reading(
                    signed,
                    array_vals(ctx.reads[1]),
                    base,
                    n,
                ),
                array_vals(ctx.writes[0]),
                n,
            )
        }),
        air.spec_offset() <= ctx.opcode.val() <= air.spec_offset() + 1,
        ctx.is_valid.val() == 1,
        ctx.to_pc is None,
{
    let p = F::order();
    let base = limb_base(LIMB_BITS);
    let n = NUM_LIMBS as int;
    let row = cols.row();
    F::order_is_prime();
    lemma_limb_base(LIMB_BITS);
    let b = bytes_of(row.b);
    let c = bytes_of(row.c);
    assert(row.b =~= byte_vals(b));
    assert(row.c =~= byte_vals(c));
    lemma_in_range(b, LIMB_BITS);
    lemma_in_range(c, LIMB_BITS);
    let constraints = row.constraints(base);
    let sends = row.sends(half_base(LIMB_BITS));
    assert(final(builder).constraint_vals() =~= red_seq(constraints, p));
    assert(final(builder).send_vals() =~= red_sends(sends, p));
    lemma_accepted(*final(builder), constraints, sends, base);
    lemma_canonical(cols);
    let (op, top) = law_less_than_sound(row, b, c, LIMB_BITS, p);
    lemma_red_small(row.sltu + air.spec_offset(), p);
    lemma_red_small(1, p);
    lemma_reading(b, LIMB_BITS);
    lemma_reading(c, LIMB_BITS);
    assert forall|i: int| 1 <= i < n implies #[trigger] array_vals(ctx.writes[0])[i] == 0 by {
        assert(ctx.writes[0][i].val() == 0);
    }
}

/// A row that is filled from a record is accepted and valid, shows the adapter the operands and the
/// opcode of the record, and sends the lookups that were requested, each once, and no other.
pub proof fn law_comparison_filled_row_is_accepted<
    F: PrimeField32,
    const NUM_LIMBS: usize,
    const LIMB_BITS: usize,
>(
    step: LessThanStep<NUM_LIMBS, LIMB_BITS>,
    record: LessThanCoreRecord<NUM_LIMBS, LIMB_BITS>,
    filled: (LessThanCoreCols<F, NUM_LIMBS, LIMB_BITS>, Vec<LookupRequest>),
    air: LessThanCoreAir<NUM_LIMBS, LIMB_BITS>,
    builder: &mut AirBuilder<F>,
    ctx: AdapterAirContext<F, NUM_LIMBS>,
)
    requires
        NUM_LIMBS >= 1,
        1 <= LIMB_BITS <= 8,
        2 * pow2(LIMB_BITS as nat) < F::order(),
        air.spec_offset() + 1 < F::order(),
        record.local_opcode <= 1,
        digits_below(byte_vals(record.b@), pow2(LIMB_BITS as nat) as int, NUM_LIMBS as int),
        digits_below(byte_vals(record.c@), pow2(LIMB_BITS as nat) as int, NUM_LIMBS as int),
        call_ensures(
            LessThanStep::<NUM_LIMBS, LIMB_BITS>::fill_trace_row::<F>,
            (&step, &record),
            filled,
        ),
        fresh(*old(builder)),
        call_ensures(
            LessThanCoreAir::<NUM_LIMBS, LIMB_BITS>::eval::<F>,
            (&air, builder, &filled.0),
            ctx,
        ),
    ensures
        accepted(*final(builder), pow2(LIMB_BITS as nat) as int),
        ctx.is_valid.val() == 1,
        ctx.opcode.val() == air.spec_offset() + record.local_opcode,
        array_vals(ctx.reads[0]) == byte_vals(record.b@),
        array_vals(ctx.reads[1]) == byte_vals(record.c@),
        final(builder).sends@.len() >= filled.1@.len(),
        forall|i: int|
            0 <= i < filled.1@.len() ==> {
                let send = #[trigger] final(builder).sends@[i];
                &&& send.count.val() == 1
                &&& send.kind == filled.1@[i].kind
                &&& send.x.val() == filled.1@[i].x
                &&& send.y.val() == filled.1@[i].y
            },
        forall|i: int|
            filled.1@.len() <= i < final(builder).sends@.len() ==> (
            #[trigger] final(builder).sends@[i]).count.val() == 0,
{
    let p = F::order();
    let base = limb_base(LIMB_BITS);
    let row = filled.0.row();
    F::order_is_prime();
    lemma_limb_base(LIMB_BITS);
    lemma_in_range(record.b@, LIMB_BITS);
    lemma_in_range(record.c@, LIMB_BITS);
    let top = lemma_top_exists(record.b@, record.c@, NUM_LIMBS as int);
    let is_slt = record.is_slt();
    law_less_than_complete(is_slt, record.b@, record.c@, LIMB_BITS, top, p);
    assert(row == less_than_row(is_slt, record.b@, record.c@, LIMB_BITS, top, p));
    let requests = less_than_requests(is_slt, record.b@, record.c@, LIMB_BITS, top, p);
    let constraints = row.constraints(base);
    let sends = row.sends(half_base(LIMB_BITS));
    assert(final(builder).constraint_vals() =~= red_seq(constraints, p));
    assert(final(builder).send_vals() =~= red_sends(sends, p));
    assert forall|i: int| 0 <= i < sends.len() implies (#[trigger] sends[i]).reduced(p).holds(
        base,
    ) by {
        assert(red_sends(sends, p)[i] == sends[i].reduced(p));
    }
    lemma_accepted(*final(builder), constraints, sends, base);
    lemma_red_small(row.sltu + air.spec_offset(), p);
    lemma_red_small(1, p);
    assert(final(builder).send_vals().len() == 2);
    assert forall|i: int| 0 <= i < 2 implies (#[trigger] final(builder).sends@[i]).vals()
        == red_sends(sends, p)[i] by {
        assert(final(builder).send_vals()[i] == red_sends(sends, p)[i]);
    }
}

} // verus!
