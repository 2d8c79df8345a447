//! What an execution does besides computing: counting, metering, suspending.
pub mod e1;
pub mod laws;
pub mod stats;

use crate::arch::segment::VmSegmentState;
use vstd::prelude::*;

verus! {

/// An access to a block of memory.
pub struct MemoryOperation {
    pub address_space: u32,
    pub ptr: u32,
    pub size: u32,
    pub is_load_store: bool,
    pub is_write: bool,
}

/// The context of an execution, which is told of every access to memory.
pub trait E1ExecutionCtx: Sized {
    /// What the context stands for.
    type V;

    spec fn ctx_view(&self) -> Self::V;

    /// The context can take the operation.
    spec fn accepts(v: Self::V, op: MemoryOperation) -> bool;

    /// The context after the operation.
    spec fn after(v: Self::V, op: MemoryOperation) -> Self::V;

    fn on_memory_operation(
        &mut self,
        address_space: u32,
        ptr: u32,
        size: u32,
        is_load_store: bool,
        is_write: bool,
    )
        requires
            Self::accepts(
                old(self).ctx_view(),
                (MemoryOperation { address_space, ptr, size, is_load_store, is_write }),
            ),
        ensures
            final(self).ctx_view() == Self::after(
                old(self).ctx_view(),
                (MemoryOperation { address_space, ptr, size, is_load_store, is_write }),
            ),
    ;

    fn should_suspend<F>(vm_state: &mut VmSegmentState<F, Self>) -> bool;

    fn on_terminate<F>(_vm_state: &mut VmSegmentState<F, Self>) {
    }
}

/// A context that is also told how traces grow.
pub trait E2ExecutionCtx: E1ExecutionCtx {
    /// The context can take the rows.
    spec fn accepts_height(v: Self::V, chip_idx: usize, height_delta: u32) -> bool;

    /// The context after the rows.
    spec fn after_height(v: Self::V, chip_idx: usize, height_delta: u32) -> Self::V;

    fn on_height_change(&mut self, chip_idx: usize, height_delta: u32)
        requires
            Self::accepts_height(old(self).ctx_view(), chip_idx, height_delta),
        ensures
            final(self).ctx_view() == Self::after_height(
                old(self).ctx_view(),
                chip_idx,
                height_delta,
            ),
    ;
}

/// Pre-computed data of an instruction, with the index of the chip that executes it.
#[derive(Clone, Copy, Debug)]
pub struct E2PreCompute<DATA> {
    pub chip_idx: u32,
    pub data: DATA,
}

/// The context after the operations, one after the other.
pub open spec fn after_all<C: E1ExecutionCtx>(v: C::V, ops: Seq<MemoryOperation>) -> C::V
    decreases ops.len(),
{
    if ops.len() == 0 {
        v
    } else {
        C::after(after_all::<C>(v, ops.drop_last()), ops.last())
    }
}

/// The context can take the operations, one after the other.
pub open spec fn accepts_all<C: E1ExecutionCtx>(v: C::V, ops: Seq<MemoryOperation>) -> bool
    decreases ops.len(),
{
    ops.len() == 0 || (accepts_all::<C>(v, ops.drop_last()) && C::accepts(
        after_all::<C>(v, ops.drop_last()),
        ops.last(),
    ))
}

/// The first operations of an accepted sequence are accepted, and so is the next one after them.
pub proof fn lemma_accepts_prefix<C: E1ExecutionCtx>(v: C::V, ops: Seq<MemoryOperation>, n: int)
    requires
        accepts_all::<C>(v, ops),
        0 <= n <= ops.len(),
    ensures
        accepts_all::<C>(v, ops.take(n)),
        n < ops.len() ==> C::accepts(after_all::<C>(v, ops.take(n)), ops[n]),
        n < ops.len() ==> after_all::<C>(v, ops.take(n + 1)) == C::after(
            after_all::<C>(v, ops.take(n)),
            ops[n],
        ),
    decreases ops.len(),
{
    if n == ops.len() {
        assert(ops.take(n) =~= ops);
    } else if n == ops.len() - 1 {
        assert(ops.take(n) =~= ops.drop_last());
        assert(ops.take(n + 1) =~= ops);
    } else {
        lemma_accepts_prefix::<C>(v, ops.drop_last(), n);
        assert(ops.drop_last().take(n) =~= ops.take(n));
        assert(ops.drop_last().take(n + 1) =~= ops.take(n + 1));
    }
}

} // verus!
