//! Evaluation of constraints on one trace row.
//!
//! A row satisfies an AIR when every recorded constraint is zero and every lookup that is sent
//! with a non-zero count lies in the lookup table.
use crate::field::number_theory::{lemma_fadd_red, lemma_fmul_red, lemma_fsub_red, red};
use crate::field::{lemma_val_red, PrimeField32};
use vstd::prelude::*;

verus! {

/// Which table a lookup goes to.
#[derive(Clone, Copy, Debug, PartialEq, Eq, Structural)]
pub enum LookupKind {
    /// Both values are limbs.
    Range,
    /// Both values are limbs and the third is their exclusive or.
    Xor,
}

/// A lookup that a row sends, `count` times.
#[derive(Clone, Copy, Debug)]
pub struct LookupSend<F> {
    pub kind: LookupKind,
    pub x: F,
    pub y: F,
    pub z: F,
    pub count: F,
}

/// The canonical values of a lookup that a row sends.
pub ghost struct SendVals {
    pub kind: LookupKind,
    pub x: int,
    pub y: int,
    pub z: int,
    pub count: int,
}

/// A lookup that the trace generator announces to the lookup chip.
#[derive(Clone, Copy, Debug, PartialEq, Eq, Structural)]
pub struct LookupRequest {
    pub kind: LookupKind,
    pub x: u32,
    pub y: u32,
}

impl LookupRequest {
    /// The request is a row of the table over limbs below `base`.
    pub open spec fn in_table(self, base: int) -> bool {
        self.x < base && self.y < base
    }

    /// The lookup that matches this request once.
    pub open spec fn as_send(self) -> SendVals {
        SendVals {
            kind: self.kind,
            x: self.x as int,
            y: self.y as int,
            z: if self.kind == LookupKind::Xor {
                (self.x ^ self.y) as int
            } else {
                0
            },
            count: 1,
        }
    }
}

impl<F: PrimeField32> LookupSend<F> {
    pub open spec fn vals(self) -> SendVals {
        SendVals {
            kind: self.kind,
            x: self.x.val(),
            y: self.y.val(),
            z: self.z.val(),
            count: self.count.val(),
        }
    }
}

impl SendVals {
    /// All values reduced modulo `p`.
    pub open spec fn reduced(self, p: int) -> SendVals {
        SendVals {
            kind: self.kind,
            x: red(self.x, p),
            y: red(self.y, p),
            z: red(self.z, p),
            count: red(self.count, p),
        }
    }

    /// The lookup is not sent, or it is a row of the table over limbs below `base`.
    pub open spec fn holds(self, base: int) -> bool {
        self.count != 0 ==> {
            &&& 0 <= self.x < base
            &&& 0 <= self.y < base
            &&& self.z == (if self.kind == LookupKind::Xor {
                ((self.x as u32) ^ (self.y as u32)) as int
            } else {
                0
            })
        }
    }
}

/// Every integer reduced modulo `p`.
pub open spec fn red_seq(s: Seq<int>, p: int) -> Seq<int> {
    s.map_values(|x: int| red(x, p))
}

/// Every lookup reduced modulo `p`.
pub open spec fn red_sends(s: Seq<SendVals>, p: int) -> Seq<SendVals> {
    s.map_values(|x: SendVals| x.reduced(p))
}

/// Every constraint is zero modulo `p`.
pub open spec fn all_zero(s: Seq<int>, p: int) -> bool {
    forall|i: int| 0 <= i < s.len() ==> red(#[trigger] s[i], p) == 0
}

/// Every lookup holds, its values reduced modulo `p`.
pub open spec fn all_hold(s: Seq<SendVals>, p: int, base: int) -> bool {
    forall|i: int| 0 <= i < s.len() ==> (#[trigger] s[i]).reduced(p).holds(base)
}

/// A value in a constraint: a field element, and an integer polynomial in the columns of the row
/// of which it is the residue.
pub struct Expr<F: PrimeField32> {
    value: F,
    poly: Ghost<int>,
}

impl<F: PrimeField32> Copy for Expr<F> {

}

impl<F: PrimeField32> Clone for Expr<F> {
    fn clone(&self) -> (r: Self)
        ensures
            r == *self,
    {
        *self
    }
}

impl<F: PrimeField32> Expr<F> {
    #[verifier::type_invariant]
    spec fn is_residue(self) -> bool {
        self.value.val() == red(self.poly@, F::order())
    }

    /// The integer whose residue this is.
    pub closed spec fn poly(self) -> int {
        self.poly@
    }

    /// The value of a column.
    pub fn column(x: F) -> (r: Self)
        ensures
            r.poly() == x.val(),
    {
        proof {
            lemma_val_red(x);
        }
        Expr { value: x, poly: Ghost(x.val()) }
    }

    /// A constant.
    pub fn constant(n: u32) -> (r: Self)
        requires
            n < F::order(),
        ensures
            r.poly() == n,
    {
        Self::column(F::from_canonical_u32(n))
    }

    /// A constant that is given as a size.
    pub fn constant_usize(n: usize) -> (r: Self)
        requires
            n < F::order(),
        ensures
            r.poly() == n,
    {
        proof {
            F::order_is_prime();
        }
        Self::constant(n as u32)
    }

    /// The field element.
    pub fn value(self) -> (r: F)
        ensures
            r.val() == red(self.poly(), F::order()),
    {
        proof {
            use_type_invariant(&self);
        }
        self.value
    }

    pub fn add(self, other: Self) -> (r: Self)
        ensures
            r.poly() == self.poly() + other.poly(),
    {
        proof {
            use_type_invariant(&self);
            use_type_invariant(&other);
            F::order_is_prime();
            lemma_fadd_red(self.poly@, other.poly@, F::order());
        }
        Expr { value: self.value.add(other.value), poly: Ghost(self.poly@ + other.poly@) }
    }

    pub fn sub(self, other: Self) -> (r: Self)
        ensures
            r.poly() == self.poly() - other.poly(),
    {
        proof {
            use_type_invariant(&self);
            use_type_invariant(&other);
            F::order_is_prime();
            lemma_fsub_red(self.poly@, other.poly@, F::order());
        }
        Expr { value: self.value.sub(other.value), poly: Ghost(self.poly@ - other.poly@) }
    }

    pub fn mul(self, other: Self) -> (r: Self)
        ensures
            r.poly() == self.poly() * other.poly(),
    {
        proof {
            use_type_invariant(&self);
            use_type_invariant(&other);
            F::order_is_prime();
            lemma_fmul_red(self.poly@, other.poly@, F::order());
        }
        Expr { value: self.value.mul(other.value), poly: Ghost(self.poly@ * other.poly@) }
    }

    /// Minus one.
    pub fn neg_one() -> (r: Self)
        ensures
            r.poly() == -1,
    {
        proof {
            F::order_is_prime();
        }
        Self::constant(0).sub(Self::constant(1))
    }

    /// One minus this value.
    pub fn not(self) -> (r: Self)
        ensures
            r.poly() == 1 - self.poly(),
    {
        proof {
            F::order_is_prime();
        }
        Self::constant(1).sub(self)
    }
}

/// The constraints and lookups of one row, in the order in which they were stated.
pub struct AirBuilder<F> {
    pub constraints: Vec<F>,
    pub sends: Vec<LookupSend<F>>,
}

impl<F: PrimeField32> AirBuilder<F> {
    /// The canonical values of the constraints.
    pub open spec fn constraint_vals(&self) -> Seq<int> {
        self.constraints@.map_values(|x: F| x.val())
    }

    /// The canonical values of the lookups.
    pub open spec fn send_vals(&self) -> Seq<SendVals> {
        self.sends@.map_values(|x: LookupSend<F>| x.vals())
    }

    pub fn new() -> (r: Self)
        ensures
            r.constraint_vals() == Seq::<int>::empty(),
            r.send_vals() == Seq::<SendVals>::empty(),
    {
        let r = AirBuilder { constraints: Vec::new(), sends: Vec::new() };
        assert(r.constraint_vals() =~= Seq::<int>::empty());
        assert(r.send_vals() =~= Seq::<SendVals>::empty());
        r
    }

    /// States that `x` is zero.
    pub fn assert_zero(&mut self, x: Expr<F>)
        ensures
            final(self).constraint_vals() == old(self).constraint_vals().push(
                red(x.poly(), F::order()),
            ),
            final(self).send_vals() == old(self).send_vals(),
    {
        let value = x.value();
        self.constraints.push(value);
        assert(self.constraint_vals() =~= old(self).constraint_vals().push(value.val()));
    }

    /// States that `x` and `y` are equal.
    pub fn assert_eq(&mut self, x: Expr<F>, y: Expr<F>)
        ensures
            final(self).constraint_vals() == old(self).constraint_vals().push(
                red(x.poly() - y.poly(), F::order()),
            ),
            final(self).send_vals() == old(self).send_vals(),
    {
        self.assert_zero(x.sub(y));
    }

    /// States that `x` is zero or one.
    pub fn assert_bool(&mut self, x: Expr<F>)
        ensures
            final(self).constraint_vals() == old(self).constraint_vals().push(
                red(x.poly() * (x.poly() - 1), F::order()),
            ),
            final(self).send_vals() == old(self).send_vals(),
    {
        proof {
            F::order_is_prime();
        }
        self.assert_zero(x.mul(x.sub(Expr::constant(1))));
    }

    /// States that `x` is zero or one unless `condition` is zero.
    pub fn when_assert_bool(&mut self, condition: Expr<F>, x: Expr<F>)
        ensures
            final(self).constraint_vals() == old(self).constraint_vals().push(
                red(condition.poly() * (x.poly() * (x.poly() - 1)), F::order()),
            ),
            final(self).send_vals() == old(self).send_vals(),
    {
        proof {
            F::order_is_prime();
        }
        self.assert_zero(condition.mul(x.mul(x.sub(Expr::constant(1)))));
    }

    /// States that `x` is zero unless `condition` is zero.
    pub fn when_assert_zero(&mut self, condition: Expr<F>, x: Expr<F>)
        ensures
            final(self).constraint_vals() == old(self).constraint_vals().push(
                red(condition.poly() * x.poly(), F::order()),
            ),
            final(self).send_vals() == old(self).send_vals(),
    {
        self.assert_zero(condition.mul(x));
    }

    /// States that `x` is one unless `condition` is zero.
    pub fn when_assert_one(&mut self, condition: Expr<F>, x: Expr<F>)
        ensures
            final(self).constraint_vals() == old(self).constraint_vals().push(
                red(condition.poly() * (x.poly() - 1), F::order()),
            ),
            final(self).send_vals() == old(self).send_vals(),
    {
        proof {
            F::order_is_prime();
        }
        self.assert_zero(condition.mul(x.sub(Expr::constant(1))));
    }

    /// States that the lookup holds `count` times.
    pub fn send(&mut self, kind: LookupKind, x: Expr<F>, y: Expr<F>, z: Expr<F>, count: Expr<F>)
        ensures
            final(self).constraint_vals() == old(self).constraint_vals(),
            final(self).send_vals() == old(self).send_vals().push(
                (SendVals {
                    kind,
                    x: x.poly(),
                    y: y.poly(),
                    z: z.poly(),
                    count: count.poly(),
                }).reduced(F::order()),
            ),
    {
        let send = LookupSend {
            kind,
            x: x.value(),
            y: y.value(),
            z: z.value(),
            count: count.value(),
        };
        self.sends.push(send);
        assert(self.send_vals() =~= old(self).send_vals().push(send.vals()));
    }

    /// States that `z` is the exclusive or of the limbs `x` and `y`.
    pub fn send_xor(&mut self, x: Expr<F>, y: Expr<F>, z: Expr<F>, count: Expr<F>)
        ensures
            final(self).constraint_vals() == old(self).constraint_vals(),
            final(self).send_vals() == old(self).send_vals().push(
                (SendVals {
                    kind: LookupKind::Xor,
                    x: x.poly(),
                    y: y.poly(),
                    z: z.poly(),
                    count: count.poly(),
                }).reduced(F::order()),
            ),
    {
        self.send(LookupKind::Xor, x, y, z, count);
    }

    /// States that `x` and `y` are limbs.
    pub fn send_range(&mut self, x: Expr<F>, y: Expr<F>, count: Expr<F>)
        ensures
            final(self).constraint_vals() == old(self).constraint_vals(),
            final(self).send_vals() == old(self).send_vals().push(
                (SendVals {
                    kind: LookupKind::Range,
                    x: x.poly(),
                    y: y.poly(),
                    z: 0,
                    count: count.poly(),
                }).reduced(F::order()),
            ),
    {
        proof {
            F::order_is_prime();
        }
        self.send(LookupKind::Range, x, y, Expr::constant(0), count);
    }
}

/// What a core chip tells its adapter: the values read and written, and the instruction that
/// relates them.
pub struct AdapterAirContext<F, const N: usize> {
    /// The program counter after the instruction, where the core decides it.
    pub to_pc: Option<F>,
    pub reads: [[F; N]; 2],
    pub writes: [[F; N]; 1],
    pub is_valid: F,
    pub opcode: F,
}

/// The canonical values of an array of field elements.
pub open spec fn array_vals<F: PrimeField32, const N: usize>(a: [F; N]) -> Seq<int> {
    a@.map_values(|x: F| x.val())
}

/// The integers of a sequence of bytes.
pub open spec fn byte_vals(s: Seq<u8>) -> Seq<int> {
    s.map_values(|x: u8| x as int)
}

/// Every byte is a canonical value of the field of order `p`.
pub open spec fn bytes_canonical(s: Seq<u8>, p: int) -> bool {
    forall|i: int| 0 <= i < s.len() ==> #[trigger] s[i] < p
}

/// The elements whose canonical values are the given bytes.
pub fn field_bytes<F: PrimeField32, const N: usize>(bytes: &[u8; N]) -> (r: [F; N])
    requires
        bytes_canonical(bytes@, F::order()),
    ensures
        array_vals(r) == byte_vals(bytes@),
{
    let mut r = [F::zero(); N];
    for i in 0..N
        invariant
            bytes_canonical(bytes@, F::order()),
            forall|j: int| 0 <= j < i ==> (#[trigger] r[j]).val() == bytes[j],
    {
        assert(bytes@[i as int] < F::order());
        r[i] = F::from_canonical_u32(bytes[i] as u32);
    }
    assert(array_vals(r) =~= byte_vals(bytes@));
    r
}

} // verus!
