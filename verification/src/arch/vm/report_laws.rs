//! What a report counts: the accesses that the context was told of.
use crate::arch::execution_mode::e1::{
    key_of, law_counts_are_of_operations, load_stores, selected, E1Ctx, E1View,
};
use crate::arch::execution_mode::stats::{
    count_sum, counted, selects, AccessCounts, AccessKey, MemOp,
};
use crate::arch::execution_mode::{accepts_all, after_all, E1ExecutionCtx, MemoryOperation};
use crate::arch::segment::VmSegmentState;
use crate::arch::vm::executor::e1_result;
use crate::arch::vm::report::{lists_space, reportable, AccessReport};
use crate::arch::vm::state::VmState;
use vstd::prelude::*;

verus! {

/// How many of the accesses are such as `f` says.
pub open spec fn tally(ops: Seq<MemoryOperation>, f: spec_fn(MemoryOperation) -> bool) -> int
    decreases ops.len(),
{
    if ops.len() == 0 {
        0
    } else {
        tally(ops.drop_last(), f) + (if f(ops.last()) {
            1int
        } else {
            0
        })
    }
}

/// A context that was told of no access yet.
pub open spec fn untold(v: E1View) -> bool {
    v.stats == Map::<AccessKey, u64>::empty() && v.loadstore_stats == Map::<
        AccessKey,
        u64,
    >::empty()
}

/// How often a place was accessed in one way.
pub open spec fn count_at(m: Map<AccessKey, u64>, space: u32, ptr: u32, is_write: bool) -> int {
    let k = (
        space,
        ptr,
        if is_write {
            MemOp::Write
        } else {
            MemOp::Read
        },
    );
    if m.contains_key(k) {
        m[k] as int
    } else {
        0
    }
}

/// An access adds one to the count of its place and way, and to no other; to that of the loads and
/// stores only if it is for one. It does not move the end of the run.
pub proof fn law_access_is_counted(
    v: E1View,
    op: MemoryOperation,
    space: u32,
    ptr: u32,
    is_write: bool,
)
    requires
        E1Ctx::accepts(v, op),
    ensures
        ({
            let w = E1Ctx::after(v, op);
            let hit = op.address_space == space && op.ptr == ptr && op.is_write == is_write;
            &&& count_at(w.stats, space, ptr, is_write) == count_at(v.stats, space, ptr, is_write)
                + (if hit {
                1int
            } else {
                0
            })
            &&& count_at(w.loadstore_stats, space, ptr, is_write) == count_at(
                v.loadstore_stats,
                space,
                ptr,
                is_write,
            ) + (if hit && op.is_load_store {
                1int
            } else {
                0
            })
            &&& w.instret_end == v.instret_end
        }),
{
}

/// The counts of a context are those of the accesses that it was told of.
pub proof fn law_counts_at_places(
    v: E1View,
    ops: Seq<MemoryOperation>,
    space: u32,
    ptr: u32,
    is_write: bool,
)
    requires
        untold(v),
        accepts_all::<E1Ctx>(v, ops),
    ensures
        ({
            let w = after_all::<E1Ctx>(v, ops);
            &&& count_at(w.stats, space, ptr, is_write) == tally(
                ops,
                |op: MemoryOperation|
                    op.address_space == space && op.ptr == ptr && op.is_write == is_write,
            )
            &&& count_at(w.loadstore_stats, space, ptr, is_write) == tally(
                ops,
                |op: MemoryOperation|
                    op.address_space == space && op.ptr == ptr && op.is_write == is_write
                        && op.is_load_store,
            )
            &&& w.instret_end == v.instret_end
        }),
    decreases ops.len(),
{
    if ops.len() > 0 {
        law_counts_at_places(v, ops.drop_last(), space, ptr, is_write);
        law_access_is_counted(
            after_all::<E1Ctx>(v, ops.drop_last()),
            ops.last(),
            space,
            ptr,
            is_write,
        );
    }
}

proof fn lemma_tally_bound(ops: Seq<MemoryOperation>, f: spec_fn(MemoryOperation) -> bool)
    ensures
        0 <= tally(ops, f) <= ops.len(),
    decreases ops.len(),
{
    if ops.len() > 0 {
        lemma_tally_bound(ops.drop_last(), f);
    }
}

proof fn lemma_selected(
    ops: Seq<MemoryOperation>,
    space: u32,
    way: Option<MemOp>,
    f: spec_fn(MemoryOperation) -> bool,
)
    requires
        forall|op: MemoryOperation| #[trigger]
            f(op) == (op.address_space == space && (way is None || (way == Some(MemOp::Write))
                == op.is_write)),
    ensures
        selected(ops, selects(space, way)) == tally(ops, f),
    decreases ops.len(),
{
    if ops.len() > 0 {
        lemma_selected(ops.drop_last(), space, way, f);
        let op = ops.last();
        match way {
            Some(MemOp::Read) => {},
            Some(MemOp::Write) => {},
            None => {},
        }
        assert(f(op) == selects(space, way)(key_of(op)));
    }
}

proof fn lemma_selected_load_stores(
    ops: Seq<MemoryOperation>,
    space: u32,
    f: spec_fn(MemoryOperation) -> bool,
)
    requires
        forall|op: MemoryOperation| #[trigger]
            f(op) == (op.address_space == space && op.is_load_store),
    ensures
        selected(load_stores(ops), selects(space, None)) == tally(ops, f),
    decreases ops.len(),
{
    let is_load_store = |op: MemoryOperation| op.is_load_store;
    reveal(Seq::filter);
    if ops.len() > 0 {
        let (before, op) = (ops.drop_last(), ops.last());
        lemma_selected_load_stores(before, space, f);
        if op.is_load_store {
            let kept = before.filter(is_load_store);
            assert(ops.filter(is_load_store) == kept.push(op));
            assert(kept.push(op).drop_last() =~= kept);
        } else {
            assert(ops.filter(is_load_store) == before.filter(is_load_store));
        }
        assert(f(op) == (op.is_load_store && selects(space, None)(key_of(op))));
    }
}

/// The sums of an address space are those of the accesses to it.
proof fn lemma_sums(v: E1View, ops: Seq<MemoryOperation>, space: u32)
    requires
        untold(v),
        accepts_all::<E1Ctx>(v, ops),
    ensures
        ({
            let w = after_all::<E1Ctx>(v, ops);
            &&& count_sum(w.stats, selects(space, None)) == tally(
                ops,
                |op: MemoryOperation| op.address_space == space,
            )
            &&& count_sum(w.stats, selects(space, Some(MemOp::Read))) == tally(
                ops,
                |op: MemoryOperation| op.address_space == space && !op.is_write,
            )
            &&& count_sum(w.stats, selects(space, Some(MemOp::Write))) == tally(
                ops,
                |op: MemoryOperation| op.address_space == space && op.is_write,
            )
            &&& count_sum(w.loadstore_stats, selects(space, None)) == tally(
                ops,
                |op: MemoryOperation| op.address_space == space && op.is_load_store,
            )
        }),
{
    law_counts_are_of_operations(v, ops, selects(space, None));
    law_counts_are_of_operations(v, ops, selects(space, Some(MemOp::Read)));
    law_counts_are_of_operations(v, ops, selects(space, Some(MemOp::Write)));
    lemma_selected(ops, space, None, |op: MemoryOperation| op.address_space == space);
    lemma_selected(
        ops,
        space,
        Some(MemOp::Read),
        |op: MemoryOperation| op.address_space == space && !op.is_write,
    );
    lemma_selected(
        ops,
        space,
        Some(MemOp::Write),
        |op: MemoryOperation| op.address_space == space && op.is_write,
    );
    lemma_selected_load_stores(
        ops,
        space,
        |op: MemoryOperation| op.address_space == space && op.is_load_store,
    );
    assert(v.stats.dom() =~= Set::<AccessKey>::empty());
    assert(v.loadstore_stats.dom() =~= Set::<AccessKey>::empty());
}

/// A report counts the accesses to the registers, which are address space 1, and to the memory,
/// which is address space 2: all of them, the reads, the writes, and those for loads and stores.
pub open spec fn counts_of(report: AccessReport, ops: Seq<MemoryOperation>) -> bool {
    &&& report.registers.operations == tally(
        ops,
        |op: MemoryOperation| op.address_space == 1,
    )
    &&& report.registers.reads == tally(
        ops,
        |op: MemoryOperation| op.address_space == 1 && !op.is_write,
    )
    &&& report.registers.writes == tally(
        ops,
        |op: MemoryOperation| op.address_space == 1 && op.is_write,
    )
    &&& report.memory.operations == tally(
        ops,
        |op: MemoryOperation| op.address_space == 2,
    )
    &&& report.memory.reads == tally(
        ops,
        |op: MemoryOperation| op.address_space == 2 && !op.is_write,
    )
    &&& report.memory.writes == tally(
        ops,
        |op: MemoryOperation| op.address_space == 2 && op.is_write,
    )
    &&& report.loadstore_register_operations == tally(
        ops,
        |op: MemoryOperation| op.address_space == 1 && op.is_load_store,
    )
    &&& report.loadstore_memory_operations == tally(
        ops,
        |op: MemoryOperation| op.address_space == 2 && op.is_load_store,
    )
}

/// The report of a context counts the accesses that it was told of.
proof fn lemma_report_counts(
    v: E1View,
    ops: Seq<MemoryOperation>,
    w: E1View,
    r: Option<AccessReport>,
)
    requires
        untold(v),
        accepts_all::<E1Ctx>(v, ops),
        w == after_all::<E1Ctx>(v, ops),
        match r {
            Some(report) => report.reports(w),
            None => !reportable(w),
        },
    ensures
        ops.len() <= u64::MAX ==> r is Some,
        r matches Some(report) ==> counts_of(report, ops),
{
    lemma_sums(v, ops, 1);
    lemma_sums(v, ops, 2);
    lemma_tally_bound(ops, |op: MemoryOperation| op.address_space == 1);
    lemma_tally_bound(ops, |op: MemoryOperation| op.address_space == 1 && !op.is_write);
    lemma_tally_bound(ops, |op: MemoryOperation| op.address_space == 1 && op.is_write);
    lemma_tally_bound(ops, |op: MemoryOperation| op.address_space == 2);
    lemma_tally_bound(ops, |op: MemoryOperation| op.address_space == 2 && !op.is_write);
    lemma_tally_bound(ops, |op: MemoryOperation| op.address_space == 2 && op.is_write);
    lemma_tally_bound(ops, |op: MemoryOperation| op.address_space == 1 && op.is_load_store);
    lemma_tally_bound(ops, |op: MemoryOperation| op.address_space == 2 && op.is_load_store);
}

/// A report has the counts of the accesses that the context was told of, and there is one unless they
/// are more than can be counted.
pub proof fn law_report_counts_accesses(
    v: E1View,
    ops: Seq<MemoryOperation>,
    ctx: E1Ctx,
    r: Option<AccessReport>,
)
    requires
        untold(v),
        accepts_all::<E1Ctx>(v, ops),
        ctx.ctx_view() == after_all::<E1Ctx>(v, ops),
        call_ensures(AccessReport::new, (&ctx,), r),
    ensures
        ops.len() <= u64::MAX ==> r is Some,
        r matches Some(report) ==> counts_of(report, ops),
{
    lemma_report_counts(v, ops, ctx.ctx_view(), r);
}

/// `r` is what plain execution hands on of the state that it left: the count, the program counter,
/// the memory, the input, the generator, and the counts of the accesses that the context was told of.
pub open spec fn hands_on<F>(
    state: VmSegmentState<F, E1Ctx>,
    r: (VmState<F>, Option<AccessReport>),
) -> bool {
    &&& r.0.instret == state.instret
    &&& r.0.pc == state.pc
    &&& r.0.memory@ == state.memory@
    &&& r.0.input == state.streams
    &&& r.0.rng == state.rng
    &&& forall|v: E1View, ops: Seq<MemoryOperation>|
        untold(v) && accepts_all::<E1Ctx>(v, ops) && state.ctx.ctx_view() == #[trigger] after_all::<
            E1Ctx,
        >(v, ops) ==> {
            &&& ops.len() <= u64::MAX ==> r.1 is Some
            &&& r.1 matches Some(report) ==> counts_of(report, ops)
        }
}

/// What plain execution hands on.
pub proof fn lemma_hands_on<F>(
    state: VmSegmentState<F, E1Ctx>,
    r: (VmState<F>, Option<AccessReport>),
)
    requires
        e1_result(state, r),
    ensures
        hands_on(state, r),
{
    assert forall|v: E1View, ops: Seq<MemoryOperation>|
        untold(v) && accepts_all::<E1Ctx>(v, ops) && state.ctx.ctx_view() == #[trigger] after_all::<
            E1Ctx,
        >(v, ops) implies {
        &&& ops.len() <= u64::MAX ==> r.1 is Some
        &&& r.1 matches Some(report) ==> counts_of(report, ops)
    } by {
        lemma_report_counts(v, ops, state.ctx.ctx_view(), r.1);
    }
}

/// A report lists each register that was accessed, with the way and the number of its accesses, and
/// so for the accesses for loads and stores alone.
pub proof fn law_report_lists_registers(
    v: E1View,
    ops: Seq<MemoryOperation>,
    ctx: E1Ctx,
    report: AccessReport,
    ptr: u32,
    is_write: bool,
)
    requires
        untold(v),
        accepts_all::<E1Ctx>(v, ops),
        ctx.ctx_view() == after_all::<E1Ctx>(v, ops),
        call_ensures(AccessReport::new, (&ctx,), Some(report)),
    ensures
        ({
            let way = if is_write {
                MemOp::Write
            } else {
                MemOp::Read
            };
            let n = tally(
                ops,
                |op: MemoryOperation|
                    op.address_space == 1 && op.ptr == ptr && op.is_write == is_write,
            );
            let m = tally(
                ops,
                |op: MemoryOperation|
                    op.address_space == 1 && op.ptr == ptr && op.is_write == is_write
                        && op.is_load_store,
            );
            &&& forall|i: int|
                0 <= i < report.per_register@.len() && (#[trigger] report.per_register@[i]).0 == ptr
                    && report.per_register@[i].1 == way ==> report.per_register@[i].2 == n
            &&& n > 0 ==> exists|i: int|
                0 <= i < report.per_register@.len() && (#[trigger] report.per_register@[i]).0 == ptr
                    && report.per_register@[i].1 == way
            &&& forall|i: int|
                0 <= i < report.per_register_loadstore@.len() && (
                #[trigger] report.per_register_loadstore@[i]).0 == ptr
                    && report.per_register_loadstore@[i].1 == way
                    ==> report.per_register_loadstore@[i].2 == m
            &&& m > 0 ==> exists|i: int|
                0 <= i < report.per_register_loadstore@.len() && (
                #[trigger] report.per_register_loadstore@[i]).0 == ptr
                    && report.per_register_loadstore@[i].1 == way
        }),
{
    law_counts_at_places(v, ops, 1, ptr, is_write);
    let w = after_all::<E1Ctx>(v, ops);
    let way = if is_write {
        MemOp::Write
    } else {
        MemOp::Read
    };
    assert(lists_space(report.per_register@, w.stats, 1));
    assert(lists_space(report.per_register_loadstore@, w.loadstore_stats, 1));
    if w.stats.contains_key((1u32, ptr, way)) {
        let i = choose|i: int|
            0 <= i < report.per_register@.len() && (#[trigger] report.per_register@[i]).0 == ptr
                && report.per_register@[i].1 == way;
        assert(report.per_register@[i].0 == ptr);
    }
    if w.loadstore_stats.contains_key((1u32, ptr, way)) {
        let i = choose|i: int|
            0 <= i < report.per_register_loadstore@.len() && (
            #[trigger] report.per_register_loadstore@[i]).0 == ptr
                && report.per_register_loadstore@[i].1 == way;
        assert(report.per_register_loadstore@[i].0 == ptr);
    }
}

/// A context begins with no access, and with the end of the run that it is given, if any.
pub proof fn law_context_begins(instret_end: Option<u64>, r: E1Ctx)
    requires
        call_ensures(E1Ctx::new, (instret_end,), r),
    ensures
        untold(r.ctx_view()),
        r.ctx_view().instret_end == instret_end.unwrap_or(0xffff_ffff_ffff_ffff),
{
}

/// A context is told of an access by counting it.
pub proof fn law_context_is_told(
    ctx: &mut E1Ctx,
    address_space: u32,
    ptr: u32,
    size: u32,
    is_load_store: bool,
    is_write: bool,
    space: u32,
    place: u32,
    way: bool,
)
    requires
        E1Ctx::accepts(
            old(ctx).ctx_view(),
            (MemoryOperation { address_space, ptr, size, is_load_store, is_write }),
        ),
        call_ensures(
            <E1Ctx as E1ExecutionCtx>::on_memory_operation,
            (ctx, address_space, ptr, size, is_load_store, is_write),
            (),
        ),
    ensures
        ({
            let (v, w) = (old(ctx).ctx_view(), final(ctx).ctx_view());
            let hit = address_space == space && ptr == place && is_write == way;
            &&& count_at(w.stats, space, place, way) == count_at(v.stats, space, place, way) + (
            if hit {
                1int
            } else {
                0
            })
            &&& count_at(w.loadstore_stats, space, place, way) == count_at(
                v.loadstore_stats,
                space,
                place,
                way,
            ) + (if hit && is_load_store {
                1int
            } else {
                0
            })
        }),
{
}

/// Counts that are asked for are those that were recorded, if any.
pub proof fn law_recorded_counts(
    counts: &mut AccessCounts,
    address_space: u32,
    ptr: u32,
    op: MemOp,
    space: u32,
    place: u32,
    way: MemOp,
    before: Option<u64>,
    after: Option<u64>,
)
    requires
        old(counts)@.contains_key((address_space, ptr, op)) ==> old(counts)@[(
            address_space,
            ptr,
            op,
        )] < u64::MAX,
        call_ensures(AccessCounts::get, (&*old(counts), space, place, way), before),
        call_ensures(AccessCounts::record, (counts, address_space, ptr, op), ()),
        call_ensures(AccessCounts::get, (&*final(counts), space, place, way), after),
    ensures
        (space, place, way) == (address_space, ptr, op) ==> after == Some(
            (before.unwrap_or(0) + 1) as u64,
        ),
        (space, place, way) != (address_space, ptr, op) ==> after == before,
{
}

} // verus!
