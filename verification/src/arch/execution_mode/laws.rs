//! What counts of accesses add up to.
use crate::arch::execution_mode::e1::{E1Ctx, E1View};
use crate::arch::execution_mode::stats::{
    counted, law_counted_adds_one, law_total_is_reads_and_writes, lemma_count_sum_nonneg, selects,
    AccessCounts, AccessKey, MemOp,
};
use crate::arch::execution_mode::E1ExecutionCtx;
use crate::arch::vm::report::lists_space;
use vstd::prelude::*;

verus! {

/// Nothing has been counted at first.
pub proof fn law_empty_total(counts: AccessCounts, space: u32, op: Option<MemOp>, r: Option<u64>)
    requires
        call_ensures(AccessCounts::new, (), counts),
        call_ensures(AccessCounts::total, (&counts, space, op), r),
    ensures
        r == Some(0u64),
{
    assert(counts@.dom() =~= Set::<AccessKey>::empty());
}

/// An access adds one to the total of its address space and way, and to that of both ways; other
/// totals stay. If one more than a total cannot be held, there is none.
pub proof fn law_total_adds_one(
    counts: &mut AccessCounts,
    address_space: u32,
    ptr: u32,
    way: MemOp,
    space: u32,
    op: Option<MemOp>,
    before: Option<u64>,
    after: Option<u64>,
)
    requires
        old(counts)@.contains_key((address_space, ptr, way)) ==> old(counts)@[(
            address_space,
            ptr,
            way,
        )] < u64::MAX,
        call_ensures(AccessCounts::total, (&*old(counts), space, op), before),
        call_ensures(AccessCounts::record, (counts, address_space, ptr, way), ()),
        call_ensures(AccessCounts::total, (&*final(counts), space, op), after),
    ensures
        before matches Some(n) ==> if space == address_space && (op matches Some(o) ==> o == way) {
            if n < 0xffff_ffff_ffff_ffff {
                after matches Some(m) && m == n + 1
            } else {
                after is None
            }
        } else {
            after == before
        },
        before is None ==> after is None,
{
    let k = (address_space, ptr, way);
    let f = selects(space, op);
    assert(f(k) == (address_space == space && (op matches Some(o) ==> o == way))) by {
        match op {
            Some(_) => {},
            None => {},
        }
    }
    lemma_count_sum_nonneg(old(counts)@, f);
    law_counted_adds_one(old(counts)@, k, f);
    assert(final(counts)@ == counted(old(counts)@, k));
}

/// The accesses of an address space are its reads and its writes.
pub proof fn law_total_of_both_ways(
    counts: AccessCounts,
    space: u32,
    all: Option<u64>,
    reads: Option<u64>,
    writes: Option<u64>,
)
    requires
        call_ensures(AccessCounts::total, (&counts, space, None), all),
        call_ensures(AccessCounts::total, (&counts, space, Some(MemOp::Read)), reads),
        call_ensures(AccessCounts::total, (&counts, space, Some(MemOp::Write)), writes),
    ensures
        all matches Some(n) ==> (reads matches Some(r) && writes matches Some(w) && n == r + w),
{
    law_total_is_reads_and_writes(counts@, space);
    lemma_count_sum_nonneg(
        counts@,
        selects(space, Some(MemOp::Read)),
    );
    lemma_count_sum_nonneg(
        counts@,
        selects(space, Some(MemOp::Write)),
    );
}

/// What is listed of an address space is each of its places and ways that was counted, once, with
/// the count that is got for it.
pub proof fn law_listed_counts(
    counts: AccessCounts,
    space: u32,
    ptr: u32,
    way: MemOp,
    listed: Vec<(u32, MemOp, u64)>,
    count: Option<u64>,
)
    requires
        call_ensures(AccessCounts::per_pointer, (&counts, space), listed),
        call_ensures(AccessCounts::get, (&counts, space, ptr, way), count),
    ensures
        count is Some <==> exists|i: int|
            0 <= i < listed@.len() && (#[trigger] listed@[i]).0 == ptr && listed@[i].1 == way,
        forall|i: int|
            0 <= i < listed@.len() && (#[trigger] listed@[i]).0 == ptr && listed@[i].1 == way
                ==> count == Some(listed@[i].2),
        forall|i: int, j: int|
            0 <= i < j < listed@.len() ==> (#[trigger] listed@[i]).0 != (#[trigger] listed@[j]).0
                || listed@[i].1 != listed@[j].1,
{
    if count is Some {
        assert(lists_space(listed@, counts@, space));
        assert(counts@.contains_key((space, ptr, way)));
        let i = choose|i: int|
            0 <= i < listed@.len() && (#[trigger] listed@[i]).0 == ptr && listed@[i].1 == way;
        assert(listed@[i].0 == ptr);
    }
}

/// A context shows what it stands for, and one that is made without an end never stops.
pub proof fn law_context_shows(
    ctx: E1Ctx,
    stats: &AccessCounts,
    loadstore_stats: &AccessCounts,
    plain: E1Ctx,
)
    requires
        call_ensures(E1Ctx::stats, (&ctx,), stats),
        call_ensures(E1Ctx::loadstore_stats, (&ctx,), loadstore_stats),
        call_ensures(<E1Ctx as Default>::default, (), plain),
    ensures
        ctx.ctx_view() == (E1View {
            instret_end: ctx.ctx_view().instret_end,
            stats: stats@,
            loadstore_stats: loadstore_stats@,
        }),
        plain.ctx_view().instret_end == 0xffff_ffff_ffff_ffff,
        plain.ctx_view().stats == Map::<AccessKey, u64>::empty(),
        plain.ctx_view().loadstore_stats == Map::<AccessKey, u64>::empty(),
{
}

/// A read and a write are told apart.
pub proof fn law_ways(is_write: bool, r: MemOp)
    requires
        call_ensures(<MemOp as From<bool>>::from, (is_write,), r),
    ensures
        is_write <==> r is Write,
        !is_write <==> r is Read,
{
}

} // verus!
