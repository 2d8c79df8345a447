//! Plain execution, which counts memory accesses.
use crate::arch::execution_mode::stats::{
    count_sum, counted, law_counted_adds_one, AccessCounts, AccessKey, MemOp,
};
use crate::arch::execution_mode::{accepts_all, after_all, E1ExecutionCtx, MemoryOperation};
use crate::arch::segment::VmSegmentState;
use vstd::prelude::*;

verus! {

/// The context of plain execution: where to stop, and how often memory was accessed.
#[derive(Debug)]
pub struct E1Ctx {
    instret_end: u64,
    stats: AccessCounts,
    loadstore_stats: AccessCounts,
}

/// What an [`E1Ctx`] stands for.
pub ghost struct E1View {
    /// The number of retired instructions at which to stop.
    pub instret_end: u64,
    /// How often each place was accessed.
    pub stats: Map<AccessKey, u64>,
    /// How often each place was accessed by a load or store.
    pub loadstore_stats: Map<AccessKey, u64>,
}

/// The key under which an operation is counted.
pub open spec fn key_of(op: MemoryOperation) -> AccessKey {
    (
        op.address_space,
        op.ptr,
        if op.is_write {
            MemOp::Write
        } else {
            MemOp::Read
        },
    )
}

/// One more access can be counted.
pub open spec fn countable(m: Map<AccessKey, u64>, k: AccessKey) -> bool {
    m.contains_key(k) ==> m[k] < u64::MAX
}

/// Every access by a load or store is counted among all accesses.
pub open spec fn loadstore_within(v: E1View) -> bool {
    forall|k: AccessKey| #[trigger]
        v.loadstore_stats.contains_key(k) ==> v.stats.contains_key(k) && v.loadstore_stats[k]
            <= v.stats[k]
}

/// Accesses by loads and stores stay counted among all accesses.
pub proof fn law_loadstore_within(v: E1View, op: MemoryOperation)
    requires
        loadstore_within(v),
        E1Ctx::accepts(v, op),
    ensures
        loadstore_within(E1Ctx::after(v, op)),
{
}

/// The number of operations whose keys `f` selects.
pub open spec fn selected(ops: Seq<MemoryOperation>, f: spec_fn(AccessKey) -> bool) -> int
    decreases ops.len(),
{
    if ops.len() == 0 {
        0
    } else {
        selected(ops.drop_last(), f) + (if f(key_of(ops.last())) {
            1int
        } else {
            0
        })
    }
}

/// The loads and stores among the operations.
pub open spec fn load_stores(ops: Seq<MemoryOperation>) -> Seq<MemoryOperation> {
    ops.filter(|op: MemoryOperation| op.is_load_store)
}

/// The counts are those of the operations: whichever keys are selected, the sum of their counts
/// grows by the number of operations on them, and among the loads and stores by that of the loads
/// and stores on them. So all counts together grow by the number of operations.
pub proof fn law_counts_are_of_operations(
    v: E1View,
    ops: Seq<MemoryOperation>,
    f: spec_fn(AccessKey) -> bool,
)
    requires
        v.stats.dom().finite(),
        v.loadstore_stats.dom().finite(),
        accepts_all::<E1Ctx>(v, ops),
    ensures
        ({
            let w = after_all::<E1Ctx>(v, ops);
            &&& w.stats.dom().finite()
            &&& w.loadstore_stats.dom().finite()
            &&& count_sum(w.stats, f) == count_sum(v.stats, f) + selected(ops, f)
            &&& count_sum(w.loadstore_stats, f) == count_sum(v.loadstore_stats, f) + selected(
                load_stores(ops),
                f,
            )
        }),
        (forall|k: AccessKey| #[trigger] f(k)) ==> selected(ops, f) == ops.len(),
    decreases ops.len(),
{
    let is_load_store = |op: MemoryOperation| op.is_load_store;
    reveal(Seq::filter);
    if ops.len() > 0 {
        let (before, op) = (ops.drop_last(), ops.last());
        law_counts_are_of_operations(v, before, f);
        let w = after_all::<E1Ctx>(v, before);
        law_counted_adds_one(w.stats, key_of(op), f);
        if op.is_load_store {
            law_counted_adds_one(w.loadstore_stats, key_of(op), f);
            let kept = before.filter(is_load_store);
            assert(ops.filter(is_load_store) == kept.push(op));
            assert(kept.push(op).drop_last() =~= kept);
        } else {
            assert(ops.filter(is_load_store) == before.filter(is_load_store));
        }
    }
}

impl E1Ctx {
    /// Every access by a load or store was counted among all accesses.
    #[verifier::type_invariant]
    spec fn wf(&self) -> bool {
        loadstore_within(self.ctx_view())
    }

    /// A context that stops after `instret_end` instructions, or never.
    pub fn new(instret_end: Option<u64>) -> (r: Self)
        ensures
            r.ctx_view() == (E1View {
                instret_end: match instret_end {
                    Some(end) => end,
                    None => u64::MAX,
                },
                stats: Map::empty(),
                loadstore_stats: Map::empty(),
            }),
    {
        E1Ctx {
            instret_end: match instret_end {
                Some(end) => end,
                None => u64::MAX,
            },
            stats: AccessCounts::new(),
            loadstore_stats: AccessCounts::new(),
        }
    }

    /// How often each place was accessed.
    pub fn stats(&self) -> (r: &AccessCounts)
        ensures
            r@ == self.ctx_view().stats,
    {
        &self.stats
    }

    /// How often each place was accessed by a load or store.
    pub fn loadstore_stats(&self) -> (r: &AccessCounts)
        ensures
            r@ == self.ctx_view().loadstore_stats,
            loadstore_within(self.ctx_view()),
    {
        proof {
            use_type_invariant(self);
        }
        &self.loadstore_stats
    }
}

impl Default for E1Ctx {
    fn default() -> (r: Self)
        ensures
            r.ctx_view() == (E1View {
                instret_end: u64::MAX,
                stats: Map::empty(),
                loadstore_stats: Map::empty(),
            }),
    {
        Self::new(None)
    }
}

impl E1ExecutionCtx for E1Ctx {
    type V = E1View;

    closed spec fn ctx_view(&self) -> E1View {
        E1View {
            instret_end: self.instret_end,
            stats: self.stats@,
            loadstore_stats: self.loadstore_stats@,
        }
    }

    open spec fn accepts(v: E1View, op: MemoryOperation) -> bool {
        &&& countable(v.stats, key_of(op))
        &&& op.is_load_store ==> countable(v.loadstore_stats, key_of(op))
    }

    open spec fn after(v: E1View, op: MemoryOperation) -> E1View {
        E1View {
            stats: counted(v.stats, key_of(op)),
            loadstore_stats: if op.is_load_store {
                counted(v.loadstore_stats, key_of(op))
            } else {
                v.loadstore_stats
            },
            ..v
        }
    }

    fn on_memory_operation(
        &mut self,
        address_space: u32,
        ptr: u32,
        _size: u32,
        is_loadstore: bool,
        is_write: bool,
    ) {
        proof {
            use_type_invariant(&*self);
        }
        let ghost counts = self.ctx_view();
        let mem_op = MemOp::from(is_write);
        let mut loadstore_stats = AccessCounts::new();
        let mut stats = AccessCounts::new();
        std::mem::swap(&mut loadstore_stats, &mut self.loadstore_stats);
        std::mem::swap(&mut stats, &mut self.stats);
        if is_loadstore {
            loadstore_stats.record(address_space, ptr, mem_op);
        }
        stats.record(address_space, ptr, mem_op);
        proof {
            let size = _size;
            law_loadstore_within(
                counts,
                MemoryOperation {
                    address_space,
                    ptr,
                    size,
                    is_load_store: is_loadstore,
                    is_write,
                },
            );
        }
        self.stats = stats;
        self.loadstore_stats = loadstore_stats;
    }

    fn should_suspend<F>(vm_state: &mut VmSegmentState<F, Self>) -> (r: bool)
        ensures
            r == (old(vm_state).instret >= old(vm_state).ctx.ctx_view().instret_end),
            *final(vm_state) == *old(vm_state),
    {
        vm_state.instret >= vm_state.ctx.instret_end
    }
}

/// Whether a run is over, which it is once the number of retired instructions has reached its end.
/// Asking changes nothing.
pub fn run_is_over<F>(vm_state: &mut VmSegmentState<F, E1Ctx>) -> (r: bool)
    ensures
        !r <==> old(vm_state).instret < old(vm_state).ctx.ctx_view().instret_end,
        *final(vm_state) == *old(vm_state),
{
    E1Ctx::should_suspend(vm_state)
}

} // verus!
