//! The constraints of the comparison chip hold exactly on correct rows.
use crate::air::{all_hold, all_zero, byte_vals, red_sends};
use crate::field::number_theory::{
    is_prime, lemma_euclid, lemma_red_add_right, lemma_red_bool, lemma_red_eq, lemma_red_range,
    lemma_red_shift, lemma_red_small, lemma_red_zero_small, red,
};
use crate::instructions::LessThanOpcode;
use crate::limbs::{
    le_bytes, lemma_le_round_trip, lemma_limb_base, lemma_limbs_value_le, limb_base,
    limbs_in_range, limbs_value,
};
use crate::rv32im::less_than::columns::LessThanRow;
use crate::rv32im::less_than::comparison::{
    half_base, is_top_difference, lemma_less_at, less_at, limbs_signed_value, sign_set,
};
use crate::rv32im::less_than::execute::less_than_value;
use crate::rv32im::less_than::step::{
    diff_of, lemma_msb_fits, less_than_requests, less_than_row, msb_of, msb_range_of,
};
use vstd::prelude::*;

verus! {

impl LessThanRow {
    /// Every value is a canonical value of the field of order `p`, and there are `n` limbs.
    pub open spec fn canonical(self, n: int, p: int) -> bool {
        &&& self.b.len() == n
        &&& self.c.len() == n
        &&& self.marker.len() == n
        &&& forall|i: int| 0 <= i < n ==> 0 <= #[trigger] self.marker[i] < p
        &&& 0 <= self.result < p
        &&& 0 <= self.slt < p
        &&& 0 <= self.sltu < p
        &&& 0 <= self.b_msb < p
        &&& 0 <= self.c_msb < p
        &&& 0 <= self.diff_val < p
    }
}

/// The constraint and the lookup on a most significant limb `top` fix its column `m`.
proof fn lemma_msb(top: int, m: int, slt: int, half: int, p: int)
    requires
        is_prime(p),
        half >= 1,
        4 * half < p,
        0 <= top < 2 * half,
        0 <= m < p,
        slt == 0 || slt == 1,
        red((top - m) * (2 * half - (top - m)), p) == 0,
        0 <= red(m + half * slt, p) < 2 * half,
    ensures
        m == red(top - (if slt == 1 && top >= half { 2 * half } else { 0 }), p),
{
    let base = 2 * half;
    assert(half * slt == if slt == 1 { half } else { 0 }) by (nonlinear_arith)
        requires
            slt == 0 || slt == 1,
    ;
    lemma_euclid(p, top - m, base - (top - m));
    if red(top - m, p) == 0 {
        lemma_red_zero_small(top - m, p);
        lemma_red_small(m, p);
        lemma_red_small(m + half * slt, p);
    } else {
        let t = base - top + m;
        lemma_red_shift(t, -1, p);
        lemma_red_zero_small(t - p, p);
        assert(m == p - base + top);
        if slt == 1 && top >= half {
            lemma_red_shift(top - base, 1, p);
            lemma_red_small(m, p);
        } else {
            lemma_red_small(m + half * slt, p);
        }
    }
}

/// The constraints on one limb.
proof fn lemma_limb_at(row: LessThanRow, from: int, i: int, p: int)
    requires
        0 <= from <= i < row.limbs(),
        all_zero(row.limb_constraints(from), p),
    ensures
        red(row.marker[i] * (row.marker[i] - 1), p) == 0,
        red((1 - row.prefix(i)) * row.diff(i), p) == 0,
        red(row.marker[i] * (row.diff_val - row.diff(i)), p) == 0,
    decreases i - from,
{
    let s = row.limb_constraints(from);
    let t = row.limb_constraints(from + 1);
    let k = t.len() as int;
    if from == i {
        assert(red(s[k], p) == 0);
        assert(red(s[k + 1], p) == 0);
        assert(red(s[k + 2], p) == 0);
    } else {
        assert forall|j: int| 0 <= j < t.len() implies red(#[trigger] t[j], p) == 0 by {
            assert(s[j] == t[j]);
        }
        lemma_limb_at(row, from + 1, i, p);
    }
}

/// Sums of markers that are zero or one only grow towards the less significant limbs.
proof fn lemma_prefix(row: LessThanRow, i: int, j: int)
    requires
        0 <= i <= j <= row.limbs(),
        forall|k: int| 0 <= k < row.limbs() ==> 0 <= #[trigger] row.marker[k] <= 1,
    ensures
        0 <= row.prefix(j) <= row.prefix(i) <= row.limbs() - i,
        i < j && row.marker[i] == 1 ==> row.prefix(i) >= row.prefix(j) + 1,
    decreases row.limbs() - i,
{
    if i < row.limbs() {
        if i < j {
            lemma_prefix(row, i + 1, j);
        } else {
            lemma_prefix(row, i + 1, i + 1);
        }
    }
}

/// A positive sum of markers has a most significant marked limb.
proof fn lemma_marked(row: LessThanRow, i: int) -> (k: int)
    requires
        0 <= i <= row.limbs(),
        forall|j: int| 0 <= j < row.limbs() ==> 0 <= #[trigger] row.marker[j] <= 1,
        row.prefix(i) >= 1,
    ensures
        i <= k < row.limbs(),
        row.marker[k] == 1,
        row.prefix(k + 1) == 0,
    decreases row.limbs() - i,
{
    if i < row.limbs() {
        lemma_prefix(row, i + 1, row.limbs());
    }
    if row.prefix(i + 1) >= 1 {
        lemma_marked(row, i + 1)
    } else {
        i
    }
}

/// A sum of markers of at least two has a limb where it becomes two.
proof fn lemma_second_marked(row: LessThanRow, i: int) -> (k: int)
    requires
        0 <= i <= row.limbs(),
        forall|j: int| 0 <= j < row.limbs() ==> 0 <= #[trigger] row.marker[j] <= 1,
        row.prefix(i) >= 2,
    ensures
        i <= k < row.limbs(),
        row.marker[k] == 1,
        row.prefix(k) == 2,
    decreases row.limbs() - i,
{
    if row.prefix(i + 1) >= 2 {
        lemma_second_marked(row, i + 1)
    } else {
        i
    }
}

/// The difference of the operands at index `i`, before the sign of the result.
spec fn raw_diff(is_slt: bool, b: Seq<u8>, c: Seq<u8>, limb_bits: usize, i: int) -> int {
    if i == b.len() - 1 {
        msb_of(is_slt, c, limb_bits) - msb_of(is_slt, b, limb_bits)
    } else {
        c[i] - b[i]
    }
}

/// The raw difference is small, is zero exactly where the limbs are equal, and at the most
/// significant index is positive exactly where `b` is less.
proof fn lemma_raw_diff(is_slt: bool, b: Seq<u8>, c: Seq<u8>, limb_bits: usize, i: int)
    requires
        1 <= limb_bits <= 8,
        b.len() == c.len(),
        0 <= i < b.len(),
        limbs_in_range(b, limb_base(limb_bits)),
        limbs_in_range(c, limb_base(limb_bits)),
    ensures
        -limb_base(limb_bits) < raw_diff(is_slt, b, c, limb_bits, i) < limb_base(limb_bits),
        raw_diff(is_slt, b, c, limb_bits, i) == 0 <==> b[i] == c[i],
        is_top_difference(b, c, i) ==> less_at(is_slt, b, c, limb_bits, i) == (raw_diff(
            is_slt,
            b,
            c,
            limb_bits,
            i,
        ) > 0),
        is_top_difference(b, c, i) ==> 1 <= diff_of(is_slt, b, c, limb_bits, i) <= limb_base(
            limb_bits,
        ),
{
    let n = b.len() as int;
    lemma_limb_base(limb_bits);
    lemma_limb_base((limb_bits - 1) as usize);
    lemma_msb_fits(is_slt, b, limb_bits);
    lemma_msb_fits(is_slt, c, limb_bits);
    if is_top_difference(b, c, i) && i < n - 1 {
        assert(b[n - 1] == c[n - 1]);
    }
}

/// Multiplying by one or minus one.
proof fn lemma_sign_mul(x: int, r: int)
    requires
        r == 0 || r == 1,
    ensures
        x * (2 * r - 1) == (if r == 1 { x } else { -x }),
{
    assert(r == 1 ==> x * (2 * r - 1) == x) by (nonlinear_arith);
    assert(r == 0 ==> x * (2 * r - 1) == -x) by (nonlinear_arith);
}

/// The residue of the difference that the row holds is that of the operands' difference.
proof fn lemma_row_diff(
    row: LessThanRow,
    is_slt: bool,
    b: Seq<u8>,
    c: Seq<u8>,
    limb_bits: usize,
    i: int,
    p: int,
)
    requires
        p > 0,
        b.len() == c.len(),
        0 <= i < b.len(),
        row.b == byte_vals(b),
        row.c == byte_vals(c),
        row.b_msb == red(msb_of(is_slt, b, limb_bits), p),
        row.c_msb == red(msb_of(is_slt, c, limb_bits), p),
        row.result == 0 || row.result == 1,
    ensures
        red(row.diff(i), p) == red(
            if row.result == 1 {
                raw_diff(is_slt, b, c, limb_bits, i)
            } else {
                -raw_diff(is_slt, b, c, limb_bits, i)
            },
            p,
        ),
{
    let (bm, cm) = (msb_of(is_slt, b, limb_bits), msb_of(is_slt, c, limb_bits));
    if i == b.len() - 1 {
        lemma_sign_mul(row.c_msb - row.b_msb, row.result);
        crate::field::number_theory::lemma_red_sub(cm, bm, p);
        crate::field::number_theory::lemma_red_sub(bm, cm, p);
    } else {
        lemma_sign_mul(row.c[i] - row.b[i], row.result);
    }
}

/// Only the limb at `k` is marked, or none if `k` is the number of limbs.
pub open spec fn marks_only(row: LessThanRow, k: int) -> bool {
    forall|j: int|
        0 <= j < row.limbs() ==> #[trigger] row.marker[j] == (if j == k {
            1int
        } else {
            0
        })
}

/// Limbs are marked, and their number is zero in the field. This takes as many limbs as the field
/// has elements.
pub open spec fn markers_wrap(row: LessThanRow, p: int) -> bool {
    row.prefix(0) != 0 && red(row.prefix(0), p) == 0
}

/// The constraints of a valid row admit only the right result: on limbs `b` and `c`, the row
/// holds one opcode, and its result is one exactly if `b` is less than `c`, as signed or as
/// unsigned numbers. The marker is one exactly at the most significant limb at which they differ,
/// and zero everywhere if they are equal. The one exception are rows with so many limbs that the
/// number of marked ones is a multiple of the order of the field, and so counts as none.
pub proof fn law_less_than_sound(
    row: LessThanRow,
    b: Seq<u8>,
    c: Seq<u8>,
    limb_bits: usize,
    p: int,
) -> (r: (LessThanOpcode, int))
    requires
        is_prime(p),
        1 <= limb_bits <= 8,
        2 * limb_base(limb_bits) < p,
        b.len() == c.len(),
        b.len() >= 1,
        b.len() < p || !markers_wrap(row, p),
        row.canonical(b.len() as int, p),
        row.b == byte_vals(b),
        row.c == byte_vals(c),
        limbs_in_range(b, limb_base(limb_bits)),
        limbs_in_range(c, limb_base(limb_bits)),
        all_zero(row.constraints(limb_base(limb_bits)), p),
        all_hold(row.sends(half_base(limb_bits)), p, limb_base(limb_bits)),
        red(row.is_valid(), p) != 0,
    ensures
        row.selects(r.0),
        is_top_difference(b, c, r.1),
        marks_only(row, r.1),
        row.result == (if less_at(r.0 == LessThanOpcode::SLT, b, c, limb_bits, r.1) {
            1int
        } else {
            0
        }),
        r.0 == LessThanOpcode::SLT ==> row.result == (if limbs_signed_value(b, limb_bits)
            < limbs_signed_value(c, limb_bits) {
            1int
        } else {
            0
        }),
        r.0 == LessThanOpcode::SLTU ==> row.result == (if limbs_value(
            b,
            limb_base(limb_bits),
            b.len() as int,
        ) < limbs_value(c, limb_base(limb_bits), b.len() as int) {
            1int
        } else {
            0
        }),
{
    let base = limb_base(limb_bits);
    let half = half_base(limb_bits);
    let n = b.len() as int;
    lemma_limb_base(limb_bits);
    lemma_limb_base((limb_bits - 1) as usize);
    let s = row.constraints(base);
    let head = row.head_constraints(base);
    let mid = row.limb_constraints(0);
    let tail = row.tail_constraints();
    assert forall|j: int| 0 <= j < head.len() implies red(#[trigger] head[j], p) == 0 by {
        assert(s[j] == head[j]);
    }
    assert forall|j: int| 0 <= j < mid.len() implies red(#[trigger] mid[j], p) == 0 by {
        assert(s[j + 6] == mid[j]);
    }
    assert forall|j: int| 0 <= j < 2 implies red(#[trigger] tail[j], p) == 0 by {
        assert(s[j + 6 + mid.len()] == tail[j]);
    }
    assert(red(head[0], p) == 0);
    assert(red(head[1], p) == 0);
    assert(red(head[2], p) == 0);
    assert(red(head[3], p) == 0);
    assert(red(head[4], p) == 0);
    assert(red(head[5], p) == 0);
    lemma_red_bool(row.slt, p);
    lemma_red_bool(row.sltu, p);
    lemma_red_bool(row.is_valid(), p);
    lemma_red_bool(row.result, p);
    lemma_red_small(0, p);
    lemma_red_small(1, p);
    lemma_red_small(2, p);
    let op = if row.slt == 1 {
        LessThanOpcode::SLT
    } else {
        LessThanOpcode::SLTU
    };
    let is_slt = op == LessThanOpcode::SLT;
    let sends = row.sends(half);
    assert(sends[0].reduced(p).holds(base));
    assert(sends[1].reduced(p).holds(base));
    lemma_msb(b[n - 1] as int, row.b_msb, row.slt, half, p);
    lemma_msb(c[n - 1] as int, row.c_msb, row.slt, half, p);
    lemma_msb_fits(is_slt, b, limb_bits);
    lemma_msb_fits(is_slt, c, limb_bits);
    assert forall|i: int| 0 <= i < n implies 0 <= #[trigger] row.marker[i] <= 1 by {
        lemma_limb_at(row, 0, i, p);
        lemma_red_bool(row.marker[i], p);
    }
    lemma_prefix(row, 0, 0);
    assert(red(tail[0], p) == 0);
    assert(red(tail[1], p) == 0);
    lemma_red_bool(row.prefix(0), p);
    if n < p {
        lemma_red_small(row.prefix(0), p);
    }
    if row.prefix(0) == 0 {
        assert forall|i: int| 0 <= i < n implies #[trigger] b[i] == c[i] by {
            lemma_prefix(row, 0, i);
            lemma_zero_limb(row, is_slt, b, c, limb_bits, i, p);
        }
        assert(is_top_difference(b, c, n));
        lemma_less_at(is_slt, b, c, limb_bits, n);
        assert((1 - row.prefix(0)) * row.result == row.result);
        lemma_red_small(row.result, p);
        assert forall|j: int| 0 <= j < n implies #[trigger] row.marker[j] == 0 by {
            lemma_prefix(row, 0, j);
            lemma_prefix(row, j, n);
        }
        (op, n)
    } else {
        let k = lemma_marked(row, 0);
        assert forall|i: int| k < i < n implies #[trigger] b[i] == c[i] by {
            lemma_prefix(row, k + 1, i);
            lemma_zero_limb(row, is_slt, b, c, limb_bits, i, p);
        }
        lemma_limb_at(row, 0, k, p);
        lemma_row_diff(row, is_slt, b, c, limb_bits, k, p);
        lemma_raw_diff(is_slt, b, c, limb_bits, k);
        assert(row.marker[k] * (row.diff_val - row.diff(k)) == row.diff_val - row.diff(k))
            by (nonlinear_arith)
            requires
                row.marker[k] == 1,
        ;
        lemma_red_eq(row.diff_val, row.diff(k), p);
        lemma_red_small(row.diff_val, p);
        if row.diff_val == 0 {
            lemma_red_shift(-1, 1, p);
            lemma_red_small(p - 1, p);
        } else {
            lemma_red_small(row.diff_val - 1, p);
        }
        assert(1 <= row.diff_val <= base);
        if row.prefix(0) >= 2 {
            let j = lemma_second_marked(row, 0);
            lemma_limb_at(row, 0, j, p);
            let (m, x, e, v) = (row.marker[j], row.prefix(j), row.diff(j), row.diff_val);
            assert((1 - x) * e == -e) by (nonlinear_arith)
                requires
                    x == 2,
            ;
            assert(m * (v - e) == v - e) by (nonlinear_arith)
                requires
                    m == 1,
            ;
            lemma_red_eq(0, e, p);
            lemma_red_eq(v, e, p);
        }
        let d = raw_diff(is_slt, b, c, limb_bits, k);
        let e = if row.result == 1 {
            d
        } else {
            -d
        };
        if e >= 0 {
            lemma_red_small(e, p);
        } else {
            lemma_red_shift(e, 1, p);
            lemma_red_small(e + p, p);
        }
        assert(e > 0);
        assert(is_top_difference(b, c, k));
        lemma_less_at(is_slt, b, c, limb_bits, k);
        assert forall|j: int| 0 <= j < n && j != k implies #[trigger] row.marker[j] == 0 by {
            lemma_prefix(row, 0, j);
            if j < k {
                lemma_prefix(row, j, k);
                lemma_prefix(row, k, k + 1);
            } else {
                lemma_prefix(row, k + 1, j);
                lemma_prefix(row, j, n);
            }
        }
        (op, k)
    }
}

/// Rows whose markers wrap are rightly excepted: none of them marks one limb only, or none.
pub proof fn law_wrapping_rows_mark_more(row: LessThanRow, k: int, p: int)
    requires
        p > 1,
        row.marker.len() == row.limbs(),
        markers_wrap(row, p),
    ensures
        !marks_only(row, k),
{
    if marks_only(row, k) {
        lemma_prefix_at(row, if 0 <= k <= row.limbs() { k } else { row.limbs() }, 0);
        lemma_red_small(1, p);
    }
}

/// A limb above the marked one holds no difference.
proof fn lemma_zero_limb(
    row: LessThanRow,
    is_slt: bool,
    b: Seq<u8>,
    c: Seq<u8>,
    limb_bits: usize,
    i: int,
    p: int,
)
    requires
        is_prime(p),
        1 <= limb_bits <= 8,
        2 * limb_base(limb_bits) < p,
        b.len() == c.len(),
        0 <= i < b.len(),
        row.b == byte_vals(b),
        row.c == byte_vals(c),
        row.b_msb == red(msb_of(is_slt, b, limb_bits), p),
        row.c_msb == red(msb_of(is_slt, c, limb_bits), p),
        row.result == 0 || row.result == 1,
        limbs_in_range(b, limb_base(limb_bits)),
        limbs_in_range(c, limb_base(limb_bits)),
        all_zero(row.limb_constraints(0), p),
        row.prefix(i) == 0,
    ensures
        b[i] == c[i],
{
    lemma_limb_at(row, 0, i, p);
    lemma_row_diff(row, is_slt, b, c, limb_bits, i, p);
    lemma_raw_diff(is_slt, b, c, limb_bits, i);
    let x = row.prefix(i);
    assert((1 - x) * row.diff(i) == row.diff(i)) by (nonlinear_arith)
        requires
            x == 0,
    ;
    let d = raw_diff(is_slt, b, c, limb_bits, i);
    if row.result == 1 {
        lemma_red_zero_small(d, p);
    } else {
        lemma_red_zero_small(-d, p);
    }
}

/// The sum of markers of which only the one at `i` is one.
proof fn lemma_prefix_at(row: LessThanRow, i: int, j: int)
    requires
        0 <= j <= row.limbs(),
        0 <= i <= row.limbs(),
        row.marker.len() == row.limbs(),
        forall|k: int|
            0 <= k < row.limbs() ==> #[trigger] row.marker[k] == (if k == i {
                1int
            } else {
                0
            }),
    ensures
        row.prefix(j) == (if j <= i < row.limbs() {
            1int
        } else {
            0
        }),
    decreases row.limbs() - j,
{
    if j < row.limbs() {
        lemma_prefix_at(row, i, j + 1);
    }
}

/// The constraint on a most significant limb holds with or without the base taken off.
proof fn lemma_msb_holds(top: int, base: int, sign: bool, p: int)
    requires
        0 <= top < base < p,
    ensures
        ({
            let m = red(
                top - (if sign {
                    base
                } else {
                    0
                }),
                p,
            );
            red((top - m) * (base - (top - m)), p) == 0
        }),
{
    lemma_red_small(0, p);
    if sign {
        lemma_red_shift(top - base, 1, p);
        lemma_red_small(top - base + p, p);
        let t = top - red(top - base, p);
        assert(t * (base - t) == 0 + t * p) by (nonlinear_arith)
            requires
                base - t == p,
        ;
        lemma_red_shift(0, t, p);
    } else {
        lemma_red_small(top, p);
        let t = top - red(top - 0, p);
        assert(t * (base - t) == 0) by (nonlinear_arith)
            requires
                t == 0,
        ;
    }
}

/// The constraints on the limbs from index `j` on.
proof fn lemma_limbs_hold(
    is_slt: bool,
    b: Seq<u8>,
    c: Seq<u8>,
    limb_bits: usize,
    i: int,
    p: int,
    j: int,
)
    requires
        is_prime(p),
        1 <= limb_bits <= 8,
        2 * limb_base(limb_bits) < p,
        b.len() == c.len(),
        b.len() >= 1,
        limbs_in_range(b, limb_base(limb_bits)),
        limbs_in_range(c, limb_base(limb_bits)),
        is_top_difference(b, c, i),
        0 <= j <= b.len(),
    ensures
        all_zero(less_than_row(is_slt, b, c, limb_bits, i, p).limb_constraints(j), p),
    decreases b.len() - j,
{
    let row = less_than_row(is_slt, b, c, limb_bits, i, p);
    lemma_red_small(0, p);
    if j < b.len() {
        lemma_limbs_hold(is_slt, b, c, limb_bits, i, p, j + 1);
        lemma_prefix_at(row, i, j);
        lemma_row_diff(row, is_slt, b, c, limb_bits, j, p);
        lemma_raw_diff(is_slt, b, c, limb_bits, j);
        let (m, x, d, v) = (row.marker[j], row.prefix(j), row.diff(j), row.diff_val);
        assert(m * (m - 1) == 0) by (nonlinear_arith)
            requires
                m == 0 || m == 1,
        ;
        if i < j || i == b.len() {
            assert(b[j] == c[j]);
            assert((1 - x) * d == d) by (nonlinear_arith)
                requires
                    x == 0,
            ;
        } else {
            assert((1 - x) * d == 0) by (nonlinear_arith)
                requires
                    x == 1,
            ;
        }
        if i == j {
            assert(m * (v - d) == v - d) by (nonlinear_arith)
                requires
                    m == 1,
            ;
            lemma_red_range(diff_of(is_slt, b, c, limb_bits, i), p);
            lemma_red_small(v, p);
            lemma_red_eq(v, d, p);
        } else {
            assert(m * (v - d) == 0) by (nonlinear_arith)
                requires
                    m == 0,
            ;
        }
    }
}

/// The row of a comparison of limbs satisfies all constraints, and sends exactly the lookups that
/// the trace generator requests, each once, all of them in the table.
pub proof fn law_less_than_complete(
    is_slt: bool,
    b: Seq<u8>,
    c: Seq<u8>,
    limb_bits: usize,
    i: int,
    p: int,
)
    requires
        is_prime(p),
        1 <= limb_bits <= 8,
        2 * limb_base(limb_bits) < p,
        b.len() == c.len(),
        b.len() >= 1,
        limbs_in_range(b, limb_base(limb_bits)),
        limbs_in_range(c, limb_base(limb_bits)),
        is_top_difference(b, c, i),
    ensures
        ({
            let row = less_than_row(is_slt, b, c, limb_bits, i, p);
            let requests = less_than_requests(is_slt, b, c, limb_bits, i, p);
            let sends = red_sends(row.sends(half_base(limb_bits)), p);
            &&& all_zero(row.constraints(limb_base(limb_bits)), p)
            &&& sends.len() == 2
            &&& sends[0] == requests[0].as_send()
            &&& requests[0].in_table(limb_base(limb_bits))
            &&& i < b.len() ==> {
                &&& requests.len() == 2
                &&& sends[1] == requests[1].as_send()
                &&& requests[1].in_table(limb_base(limb_bits))
            }
            &&& i == b.len() ==> requests.len() == 1 && sends[1].count == 0
            &&& row.is_valid() == 1
        }),
{
    let base = limb_base(limb_bits);
    let half = half_base(limb_bits);
    let n = b.len() as int;
    let row = less_than_row(is_slt, b, c, limb_bits, i, p);
    lemma_limb_base(limb_bits);
    lemma_limb_base((limb_bits - 1) as usize);
    lemma_red_small(0, p);
    lemma_red_small(1, p);
    lemma_msb_fits(is_slt, b, limb_bits);
    lemma_msb_fits(is_slt, c, limb_bits);
    lemma_msb_holds(b[n - 1] as int, base, sign_set(is_slt, b, limb_bits), p);
    lemma_msb_holds(c[n - 1] as int, base, sign_set(is_slt, c, limb_bits), p);
    lemma_limbs_hold(is_slt, b, c, limb_bits, i, p, 0);
    lemma_prefix_at(row, i, 0);
    let s = row.constraints(base);
    let head = row.head_constraints(base);
    let mid = row.limb_constraints(0);
    let tail = row.tail_constraints();
    assert(head[0] == 0 && head[1] == 0 && head[2] == 0 && head[3] == 0) by {
        assert(row.is_valid() == 1);
    }
    assert(red(head[4], p) == 0 && red(head[5], p) == 0);
    let (x, r) = (row.prefix(0), row.result);
    assert(tail[0] == 0 && tail[1] == 0) by {
        assert(x * (x - 1) == 0) by (nonlinear_arith)
            requires
                x == 0 || x == 1,
        ;
        assert((1 - x) * r == 0) by (nonlinear_arith)
            requires
                x == 1 || r == 0,
        ;
    }
    assert forall|j: int| 0 <= j < s.len() implies red(#[trigger] s[j], p) == 0 by {
        if j < 6 {
            assert(s[j] == head[j]);
        } else if j < 6 + mid.len() {
            assert(s[j] == mid[j - 6]);
        } else {
            assert(s[j] == tail[j - 6 - mid.len()]);
        }
    }
    let (bm, cm) = (msb_of(is_slt, b, limb_bits), msb_of(is_slt, c, limb_bits));
    let hs = half * row.slt;
    assert(hs == if is_slt { half } else { 0 }) by (nonlinear_arith)
        requires
            hs == half * row.slt,
            row.slt == if is_slt { 1int } else { 0int },
    ;
    lemma_red_add_right(hs, bm, p);
    lemma_red_add_right(hs, cm, p);
    lemma_red_small(msb_range_of(is_slt, b, limb_bits), p);
    lemma_red_small(msb_range_of(is_slt, c, limb_bits), p);
    if i < n {
        lemma_raw_diff(is_slt, b, c, limb_bits, i);
        let d = diff_of(is_slt, b, c, limb_bits, i);
        lemma_red_small(d, p);
        lemma_red_small(d - 1, p);
    }
}

/// A row of zeros is not valid; it satisfies all constraints and sends no lookup.
pub proof fn law_less_than_padding(row: LessThanRow, base: int, half: int, p: int)
    requires
        is_prime(p),
        row.limbs() >= 1,
        row.c.len() == row.limbs(),
        row.marker.len() == row.limbs(),
        forall|i: int| 0 <= i < row.limbs() ==> #[trigger] row.b[i] == 0,
        forall|i: int| 0 <= i < row.limbs() ==> #[trigger] row.c[i] == 0,
        forall|i: int| 0 <= i < row.limbs() ==> #[trigger] row.marker[i] == 0,
        row.result == 0,
        row.slt == 0,
        row.sltu == 0,
        row.b_msb == 0,
        row.c_msb == 0,
        row.diff_val == 0,
    ensures
        all_zero(row.constraints(base), p),
        all_hold(row.sends(half), p, base),
        row.is_valid() == 0,
{
    lemma_red_small(0, p);
    lemma_prefix_at(row, row.limbs(), 0);
    lemma_zero_limbs_hold(row, 0, p);
    let s = row.constraints(base);
    let head = row.head_constraints(base);
    let mid = row.limb_constraints(0);
    let tail = row.tail_constraints();
    assert(head =~= seq![0int, 0, 0, 0, 0, 0]) by {
        assert(row.is_valid() == 0);
        assert(0 * (base - 0) == 0);
    }
    assert forall|j: int| 0 <= j < s.len() implies red(#[trigger] s[j], p) == 0 by {
        if j < 6 {
            assert(s[j] == head[j]);
        } else if j < 6 + mid.len() {
            assert(s[j] == mid[j - 6]);
        } else {
            assert(s[j] == tail[j - 6 - mid.len()]);
        }
    }
}

proof fn lemma_zero_limbs_hold(row: LessThanRow, j: int, p: int)
    requires
        is_prime(p),
        row.c.len() == row.limbs(),
        forall|i: int| 0 <= i < row.limbs() ==> #[trigger] row.b[i] == 0,
        forall|i: int| 0 <= i < row.limbs() ==> #[trigger] row.c[i] == 0,
        forall|i: int| 0 <= i < row.limbs() ==> #[trigger] row.marker[i] == 0,
        row.b_msb == 0,
        row.c_msb == 0,
        row.diff_val == 0,
        0 <= j <= row.limbs(),
    ensures
        all_zero(row.limb_constraints(j), p),
    decreases row.limbs() - j,
{
    lemma_red_small(0, p);
    if j < row.limbs() {
        lemma_zero_limbs_hold(row, j + 1, p);
        let (m, x, d, v) = (row.marker[j], row.prefix(j), row.diff(j), row.diff_val);
        assert(0 * (2 * row.result - 1) == 0);
        assert(d == 0);
        assert((1 - x) * d == 0) by (nonlinear_arith)
            requires
                d == 0,
        ;
    }
}

/// Execution on registers and trace generation on bytes agree: the comparison of the bytes of `x`
/// and `y` is that of `x` and `y`.
pub proof fn law_less_than_modes_agree(is_slt: bool, x: u32, y: u32, i: int)
    requires
        is_top_difference(le_bytes(x), le_bytes(y), i),
    ensures
        less_at(is_slt, le_bytes(x), le_bytes(y), 8, i) == (less_than_value(!is_slt, x, y) == 1),
{
    let (a, b) = (le_bytes(x), le_bytes(y));
    lemma_limb_base(8);
    lemma_limb_base(7);
    lemma_less_at(is_slt, a, b, 8, i);
    lemma_limbs_value_le(a);
    lemma_limbs_value_le(b);
    lemma_le_round_trip(x, a);
    lemma_le_round_trip(y, b);
    assert(half_base(8) == 128);
    assert(a[3] >= 128 <==> x >= 0x8000_0000);
    assert(b[3] >= 128 <==> y >= 0x8000_0000);
}

} // verus!
