//! What it means that a row is accepted.
use crate::air::{all_hold, all_zero, red_seq, red_sends, AirBuilder, LookupKind, SendVals};
use crate::field::number_theory::red;
use crate::field::PrimeField32;
use crate::limbs::limbs_value;
use vstd::arithmetic::power::*;
use vstd::prelude::*;

verus! {

/// Nothing has been stated yet.
pub open spec fn fresh<F: PrimeField32>(builder: AirBuilder<F>) -> bool {
    builder.constraints@.len() == 0 && builder.sends@.len() == 0
}

/// All that was stated holds: each constraint is zero, and the two values of each lookup that is
/// sent are below `base`, with their exclusive or where that is looked up.
pub open spec fn accepted<F: PrimeField32>(builder: AirBuilder<F>, base: int) -> bool {
    &&& forall|i: int|
        0 <= i < builder.constraints@.len() ==> (#[trigger] builder.constraints@[i]).val() == 0
    &&& forall|i: int|
        0 <= i < builder.sends@.len() && (#[trigger] builder.sends@[i]).count.val() != 0 ==> {
            let send = builder.sends@[i];
            &&& send.x.val() < base
            &&& send.y.val() < base
            &&& send.kind == LookupKind::Xor ==> send.z.val() == (send.x.val() as u32) ^ (
            send.y.val() as u32)
            &&& send.kind == LookupKind::Range ==> send.z.val() == 0
        }
}

/// The number of `n` digits, the lowest first.
pub open spec fn number_of(digits: Seq<int>, base: int, n: int) -> int
    decreases n,
{
    if n <= 0 {
        0
    } else {
        number_of(digits, base, n - 1) + digits[n - 1] * pow(base, (n - 1) as nat)
    }
}

/// Digits that are bytes stand for the number of the bytes.
pub proof fn lemma_number_of_bytes(digits: Seq<int>, bytes: Seq<u8>, base: int, n: int)
    requires
        n <= digits.len(),
        n <= bytes.len(),
        forall|i: int| 0 <= i < n ==> #[trigger] digits[i] == bytes[i],
    ensures
        number_of(digits, base, n) == limbs_value(bytes, base, n),
    decreases n,
{
    if n > 0 {
        lemma_number_of_bytes(digits, bytes, base, n - 1);
    }
}

/// The bytes of digits that are bytes.
pub open spec fn bytes_of(digits: Seq<int>) -> Seq<u8> {
    digits.map_values(|x: int| x as u8)
}

/// What was stated in a fresh builder holds exactly if the constraints are zero and the lookups
/// hold.
pub proof fn lemma_accepted<F: PrimeField32>(
    builder: AirBuilder<F>,
    constraints: Seq<int>,
    sends: Seq<SendVals>,
    base: int,
)
    requires
        builder.constraint_vals() == red_seq(constraints, F::order()),
        builder.send_vals() == red_sends(sends, F::order()),
    ensures
        accepted(builder, base) <==> all_zero(constraints, F::order()) && all_hold(
            sends,
            F::order(),
            base,
        ),
{
    let p = F::order();
    F::order_is_prime();
    let n = constraints.len() as int;
    let m = sends.len() as int;
    assert(builder.constraint_vals().len() == n);
    assert(builder.send_vals().len() == m);
    assert forall|i: int| 0 <= i < n implies (#[trigger] builder.constraints@[i]).val() == red(
        constraints[i],
        p,
    ) by {
        assert(builder.constraint_vals()[i] == red_seq(constraints, p)[i]);
    }
    assert forall|i: int| 0 <= i < n implies red(#[trigger] constraints[i], p)
        == builder.constraints@[i].val() by {}
    assert forall|i: int| 0 <= i < m implies (#[trigger] builder.sends@[i]).vals()
        == sends[i].reduced(p) by {
        assert(builder.send_vals()[i] == red_sends(sends, p)[i]);
    }
    if accepted(builder, base) {
        assert forall|i: int| 0 <= i < m implies (#[trigger] sends[i]).reduced(p).holds(base) by {
            let send = builder.sends@[i];
            assert(send.vals() == sends[i].reduced(p));
            send.x.val_is_canonical();
            send.y.val_is_canonical();
        }
    }
    if all_zero(constraints, p) && all_hold(sends, p, base) {
        assert forall|i: int| 0 <= i < m && (#[trigger] builder.sends@[i]).count.val()
            != 0 implies {
            let send = builder.sends@[i];
            &&& send.x.val() < base
            &&& send.y.val() < base
            &&& send.kind == LookupKind::Xor ==> send.z.val() == (send.x.val() as u32) ^ (
            send.y.val() as u32)
            &&& send.kind == LookupKind::Range ==> send.z.val() == 0
        } by {
            assert(sends[i].reduced(p).holds(base));
        }
    }
}

} // verus!
