//! What the constraints and lookups that a row states mean.
use crate::air::{
    array_vals, byte_vals, field_bytes, AirBuilder, Expr, LookupKind, LookupSend, SendVals,
};
use crate::field::number_theory::{lemma_euclid, lemma_red_mul, lemma_red_small, red};
use crate::field::PrimeField32;
use vstd::prelude::*;

verus! {

/// One constraint was added to those of `before`, and no lookup. The constraint is zero exactly if
/// the statement is true.
pub open spec fn adds_statement<F: PrimeField32>(
    before: AirBuilder<F>,
    after: AirBuilder<F>,
    statement: bool,
) -> bool {
    let n = before.constraints@.len() as int;
    &&& after.constraints@.len() == n + 1
    &&& forall|i: int|
        0 <= i < n ==> (#[trigger] after.constraints@[i]).val() == before.constraints@[i].val()
    &&& after.constraints@[n].val() == 0 <==> statement
    &&& after.sends@.len() == before.sends@.len()
    &&& forall|i: int|
        0 <= i < before.sends@.len() ==> same_send(
            #[trigger] after.sends@[i],
            before.sends@[i],
        )
}

/// The lookups are of the same values.
pub open spec fn same_send<F: PrimeField32>(x: LookupSend<F>, y: LookupSend<F>) -> bool {
    &&& x.kind == y.kind
    &&& x.x.val() == y.x.val()
    &&& x.y.val() == y.y.val()
    &&& x.z.val() == y.z.val()
    &&& x.count.val() == y.count.val()
}

proof fn lemma_adds<F: PrimeField32>(before: AirBuilder<F>, after: AirBuilder<F>, poly: int)
    requires
        after.constraint_vals() == before.constraint_vals().push(red(poly, F::order())),
        after.send_vals() == before.send_vals(),
    ensures
        adds_statement(before, after, poly % F::order() == 0),
{
    reveal(red);
    let n = before.constraints@.len() as int;
    assert(after.constraint_vals().len() == n + 1);
    assert forall|i: int| 0 <= i < n implies (#[trigger] after.constraints@[i]).val()
        == before.constraints@[i].val() by {
        assert(after.constraint_vals()[i] == after.constraints@[i].val());
        assert(before.constraint_vals()[i] == before.constraints@[i].val());
    }
    assert(after.constraint_vals()[n] == red(poly, F::order()));
    assert(after.sends@.len() == after.send_vals().len());
    assert(before.sends@.len() == before.send_vals().len());
    assert forall|i: int| 0 <= i < before.sends@.len() implies same_send(
        #[trigger] after.sends@[i],
        before.sends@[i],
    ) by {
        assert(after.send_vals()[i] == after.sends@[i].vals());
        assert(before.send_vals()[i] == before.sends@[i].vals());
    }
}

/// A product is a multiple of a prime exactly if a factor is.
proof fn lemma_product<F: PrimeField32>(a: int, b: int)
    ensures
        (a * b) % F::order() == 0 <==> a % F::order() == 0 || b % F::order() == 0,
{
    F::order_is_prime();
    let p = F::order();
    reveal(red);
    if (a * b) % p == 0 {
        lemma_euclid(p, a, b);
    }
    if a % p == 0 || b % p == 0 {
        lemma_red_mul(a, b, p);
        let x = a % p;
        let y = b % p;
        assert(x * y == 0) by (nonlinear_arith)
            requires
                x == 0 || y == 0,
        ;
        lemma_red_small(0, p);
    }
}

/// A builder begins with nothing.
pub proof fn law_builder_begins<F: PrimeField32>(r: AirBuilder<F>)
    requires
        call_ensures(AirBuilder::<F>::new, (), r),
    ensures
        r.constraints@.len() == 0,
        r.sends@.len() == 0,
{
    assert(r.constraint_vals().len() == 0);
    assert(r.send_vals().len() == 0);
}

/// Stating that a value is zero says that it is a multiple of the order.
pub proof fn law_assert_zero<F: PrimeField32>(builder: &mut AirBuilder<F>, x: Expr<F>)
    requires
        call_ensures(AirBuilder::<F>::assert_zero, (builder, x), ()),
    ensures
        adds_statement(*old(builder), *final(builder), x.poly() % F::order() == 0),
{
    lemma_adds(*old(builder), *final(builder), x.poly());
}

/// Stating that two values are equal says that they are congruent.
pub proof fn law_assert_eq<F: PrimeField32>(builder: &mut AirBuilder<F>, x: Expr<F>, y: Expr<F>)
    requires
        call_ensures(AirBuilder::<F>::assert_eq, (builder, x, y), ()),
    ensures
        adds_statement(*old(builder), *final(builder), (x.poly() - y.poly()) % F::order() == 0),
{
    lemma_adds(*old(builder), *final(builder), x.poly() - y.poly());
}

/// Stating that a value is boolean says that it is congruent to zero or to one.
pub proof fn law_assert_bool<F: PrimeField32>(builder: &mut AirBuilder<F>, x: Expr<F>)
    requires
        call_ensures(AirBuilder::<F>::assert_bool, (builder, x), ()),
    ensures
        adds_statement(
            *old(builder),
            *final(builder),
            x.poly() % F::order() == 0 || (x.poly() - 1) % F::order() == 0,
        ),
{
    lemma_adds(*old(builder), *final(builder), x.poly() * (x.poly() - 1));
    lemma_product::<F>(x.poly(), x.poly() - 1);
}

/// Stating under a condition that a value is boolean says so unless the condition is congruent to
/// zero.
pub proof fn law_when_assert_bool<F: PrimeField32>(
    builder: &mut AirBuilder<F>,
    condition: Expr<F>,
    x: Expr<F>,
)
    requires
        call_ensures(AirBuilder::<F>::when_assert_bool, (builder, condition, x), ()),
    ensures
        adds_statement(
            *old(builder),
            *final(builder),
            condition.poly() % F::order() != 0 ==> x.poly() % F::order() == 0 || (x.poly() - 1)
                % F::order() == 0,
        ),
{
    let b = x.poly() * (x.poly() - 1);
    lemma_adds(*old(builder), *final(builder), condition.poly() * b);
    lemma_product::<F>(condition.poly(), b);
    lemma_product::<F>(x.poly(), x.poly() - 1);
}

/// Stating under a condition that a value is zero says so unless the condition is congruent to zero.
pub proof fn law_when_assert_zero<F: PrimeField32>(
    builder: &mut AirBuilder<F>,
    condition: Expr<F>,
    x: Expr<F>,
)
    requires
        call_ensures(AirBuilder::<F>::when_assert_zero, (builder, condition, x), ()),
    ensures
        adds_statement(
            *old(builder),
            *final(builder),
            condition.poly() % F::order() != 0 ==> x.poly() % F::order() == 0,
        ),
{
    lemma_adds(*old(builder), *final(builder), condition.poly() * x.poly());
    lemma_product::<F>(condition.poly(), x.poly());
}

/// Stating under a condition that a value is one says so unless the condition is congruent to zero.
pub proof fn law_when_assert_one<F: PrimeField32>(
    builder: &mut AirBuilder<F>,
    condition: Expr<F>,
    x: Expr<F>,
)
    requires
        call_ensures(AirBuilder::<F>::when_assert_one, (builder, condition, x), ()),
    ensures
        adds_statement(
            *old(builder),
            *final(builder),
            condition.poly() % F::order() != 0 ==> (x.poly() - 1) % F::order() == 0,
        ),
{
    lemma_adds(*old(builder), *final(builder), condition.poly() * (x.poly() - 1));
    lemma_product::<F>(condition.poly(), x.poly() - 1);
}

/// One lookup was added to those of `before`, and no constraint. Its values are the residues of the
/// given ones.
pub open spec fn adds_lookup<F: PrimeField32>(
    before: AirBuilder<F>,
    after: AirBuilder<F>,
    kind: LookupKind,
    x: int,
    y: int,
    z: int,
    count: int,
) -> bool {
    let n = before.sends@.len() as int;
    let p = F::order();
    &&& after.sends@.len() == n + 1
    &&& forall|i: int|
        0 <= i < n ==> same_send(#[trigger] after.sends@[i], before.sends@[i])
    &&& after.sends@[n].kind == kind
    &&& after.sends@[n].x.val() == x % p
    &&& after.sends@[n].y.val() == y % p
    &&& after.sends@[n].z.val() == z % p
    &&& after.sends@[n].count.val() == count % p
    &&& after.constraints@.len() == before.constraints@.len()
    &&& forall|i: int|
        0 <= i < before.constraints@.len() ==> (#[trigger] after.constraints@[i]).val()
            == before.constraints@[i].val()
}

proof fn lemma_adds_lookup<F: PrimeField32>(
    before: AirBuilder<F>,
    after: AirBuilder<F>,
    kind: LookupKind,
    x: int,
    y: int,
    z: int,
    count: int,
)
    requires
        after.constraint_vals() == before.constraint_vals(),
        after.send_vals() == before.send_vals().push(
            (SendVals { kind, x, y, z, count }).reduced(F::order()),
        ),
    ensures
        adds_lookup(before, after, kind, x, y, z, count),
{
    reveal(red);
    let n = before.sends@.len() as int;
    assert(after.send_vals().len() == n + 1);
    assert forall|i: int| 0 <= i < n implies same_send(
        #[trigger] after.sends@[i],
        before.sends@[i],
    ) by {
        assert(after.send_vals()[i] == after.sends@[i].vals());
        assert(before.send_vals()[i] == before.sends@[i].vals());
    }
    assert(after.send_vals()[n] == (SendVals { kind, x, y, z, count }).reduced(
        F::order(),
    ));
    assert(after.constraints@.len() == after.constraint_vals().len());
    assert(before.constraints@.len() == before.constraint_vals().len());
    assert forall|i: int| 0 <= i < before.constraints@.len() implies (
    #[trigger] after.constraints@[i]).val() == before.constraints@[i].val() by {
        assert(after.constraint_vals()[i] == after.constraints@[i].val());
        assert(before.constraint_vals()[i] == before.constraints@[i].val());
    }
}

/// A lookup is of the values that it is given, to the table of its kind.
pub proof fn law_send<F: PrimeField32>(
    builder: &mut AirBuilder<F>,
    kind: LookupKind,
    x: Expr<F>,
    y: Expr<F>,
    z: Expr<F>,
    count: Expr<F>,
)
    requires
        call_ensures(AirBuilder::<F>::send, (builder, kind, x, y, z, count), ()),
    ensures
        adds_lookup(
            *old(builder),
            *final(builder),
            kind,
            x.poly(),
            y.poly(),
            z.poly(),
            count.poly(),
        ),
{
    lemma_adds_lookup(
        *old(builder),
        *final(builder),
        kind,
        x.poly(),
        y.poly(),
        z.poly(),
        count.poly(),
    );
}

/// A lookup of an exclusive or goes to the table of exclusive ors.
pub proof fn law_send_xor<F: PrimeField32>(
    builder: &mut AirBuilder<F>,
    x: Expr<F>,
    y: Expr<F>,
    z: Expr<F>,
    count: Expr<F>,
)
    requires
        call_ensures(AirBuilder::<F>::send_xor, (builder, x, y, z, count), ()),
    ensures
        adds_lookup(
            *old(builder),
            *final(builder),
            LookupKind::Xor,
            x.poly(),
            y.poly(),
            z.poly(),
            count.poly(),
        ),
{
    lemma_adds_lookup(
        *old(builder),
        *final(builder),
        LookupKind::Xor,
        x.poly(),
        y.poly(),
        z.poly(),
        count.poly(),
    );
}

/// A lookup of two limbs goes to the table of limbs, with zero as the third value.
pub proof fn law_send_range<F: PrimeField32>(
    builder: &mut AirBuilder<F>,
    x: Expr<F>,
    y: Expr<F>,
    count: Expr<F>,
)
    requires
        call_ensures(AirBuilder::<F>::send_range, (builder, x, y, count), ()),
    ensures
        adds_lookup(
            *old(builder),
            *final(builder),
            LookupKind::Range,
            x.poly(),
            y.poly(),
            0,
            count.poly(),
        ),
{
    lemma_adds_lookup(
        *old(builder),
        *final(builder),
        LookupKind::Range,
        x.poly(),
        y.poly(),
        0,
        count.poly(),
    );
}

/// Expressions are integers: columns and constants stand for themselves, and sums, differences and
/// products for those of their parts.
pub proof fn law_expressions<F: PrimeField32>(
    c: F,
    n: u32,
    m: usize,
    x: Expr<F>,
    y: Expr<F>,
    column: Expr<F>,
    constant: Expr<F>,
    size: Expr<F>,
    sum: Expr<F>,
    difference: Expr<F>,
    product: Expr<F>,
    neg_one: Expr<F>,
    not: Expr<F>,
)
    requires
        call_ensures(Expr::<F>::column, (c,), column),
        call_ensures(Expr::<F>::constant, (n,), constant),
        call_ensures(Expr::<F>::constant_usize, (m,), size),
        call_ensures(Expr::<F>::add, (x, y), sum),
        call_ensures(Expr::<F>::sub, (x, y), difference),
        call_ensures(Expr::<F>::mul, (x, y), product),
        call_ensures(Expr::<F>::neg_one, (), neg_one),
        call_ensures(Expr::<F>::not, (x,), not),
    ensures
        column.poly() == c.val(),
        constant.poly() == n,
        size.poly() == m,
        sum.poly() == x.poly() + y.poly(),
        difference.poly() + y.poly() == x.poly(),
        product.poly() == x.poly() * y.poly(),
        neg_one.poly() + 1 == 0,
        not.poly() + x.poly() == 1,
{
}

/// The element of an expression is the residue of its integer.
pub proof fn law_expression_value<F: PrimeField32>(x: Expr<F>, r: F)
    requires
        call_ensures(Expr::<F>::value, (x,), r),
    ensures
        r.val() == x.poly() % F::order(),
{
    reveal(red);
}

/// Bytes become the elements with their values, in order.
pub proof fn law_field_bytes<F: PrimeField32, const N: usize>(bytes: &[u8; N], r: [F; N], i: int)
    requires
        call_ensures(field_bytes::<F, N>, (bytes,), r),
        0 <= i < N,
    ensures
        r@[i].val() == bytes@[i],
{
    assert(array_vals(r)[i] == byte_vals(bytes@)[i]);
}

} // verus!
