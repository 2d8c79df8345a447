//! How often a run accessed registers and memory.
use crate::arch::execution_mode::e1::{loadstore_within, E1Ctx, E1View};
use crate::arch::execution_mode::stats::{
    count_sum, law_count_sum_monotone, law_total_is_reads_and_writes, lemma_count_sum_nonneg,
    selects, spec_total, AccessCounts, AccessKey, MemOp,
};
use crate::arch::execution_mode::E1ExecutionCtx;
use crate::instructions::{RV32_MEMORY_AS, RV32_REGISTER_AS};
use vstd::prelude::*;

verus! {

/// The accesses of an address space.
#[derive(Clone, Copy, Debug, PartialEq, Eq, Structural)]
pub struct AccessTotals {
    pub operations: u64,
    pub reads: u64,
    pub writes: u64,
}

/// The accesses of an address space, if the totals can be held.
pub open spec fn spec_totals(m: Map<AccessKey, u64>, address_space: u32) -> Option<AccessTotals> {
    match (
        spec_total(m, address_space, None),
        spec_total(m, address_space, Some(MemOp::Read)),
        spec_total(m, address_space, Some(MemOp::Write)),
    ) {
        (Some(operations), Some(reads), Some(writes)) => Some(
            AccessTotals { operations, reads, writes },
        ),
        _ => None,
    }
}

/// The accesses of an address space.
fn totals(stats: &AccessCounts, address_space: u32) -> (r: Option<AccessTotals>)
    ensures
        r == spec_totals(stats@, address_space),
        stats@.dom().finite(),
{
    let operations = match stats.total(address_space, None) {
        Some(n) => n,
        None => {
            return None;
        },
    };
    let reads = match stats.total(address_space, Some(MemOp::Read)) {
        Some(n) => n,
        None => {
            return None;
        },
    };
    let writes = match stats.total(address_space, Some(MemOp::Write)) {
        Some(n) => n,
        None => {
            return None;
        },
    };
    Some(AccessTotals { operations, reads, writes })
}

/// How often a run accessed registers and memory.
#[derive(Debug)]
pub struct AccessReport {
    pub registers: AccessTotals,
    pub memory: AccessTotals,
    pub loadstore_register_operations: u64,
    pub loadstore_memory_operations: u64,
    /// The accesses of every register, in no particular order.
    pub per_register: Vec<(u32, MemOp, u64)>,
    /// The accesses of every register by loads and stores, in no particular order.
    pub per_register_loadstore: Vec<(u32, MemOp, u64)>,
}

/// `r` lists the counts of an address space, every one once.
pub open spec fn lists_space(
    r: Seq<(u32, MemOp, u64)>,
    m: Map<AccessKey, u64>,
    address_space: u32,
) -> bool {
    &&& forall|i: int|
        0 <= i < r.len() ==> {
            let e = #[trigger] r[i];
            m.contains_key((address_space, e.0, e.1)) && m[(address_space, e.0, e.1)] == e.2
        }
    &&& forall|i: int, j: int|
        0 <= i < j < r.len() ==> {
            let (x, y) = (#[trigger] r[i], #[trigger] r[j]);
            x.0 != y.0 || x.1 != y.1
        }
    &&& forall|ptr: u32, op: MemOp| #[trigger]
        m.contains_key((address_space, ptr, op)) ==> exists|i: int|
            0 <= i < r.len() && (#[trigger] r[i]).0 == ptr && r[i].1 == op
}

/// The totals of a run can be held.
pub open spec fn reportable(v: E1View) -> bool {
    &&& spec_totals(v.stats, RV32_REGISTER_AS) is Some
    &&& spec_totals(v.stats, RV32_MEMORY_AS) is Some
    &&& spec_total(v.loadstore_stats, RV32_REGISTER_AS, None) is Some
    &&& spec_total(v.loadstore_stats, RV32_MEMORY_AS, None) is Some
}

impl AccessReport {
    /// The report is that of the accesses that the context counted.
    pub open spec fn reports(&self, v: E1View) -> bool {
        &&& spec_totals(v.stats, RV32_REGISTER_AS) == Some(self.registers)
        &&& spec_totals(v.stats, RV32_MEMORY_AS) == Some(self.memory)
        &&& spec_total(v.loadstore_stats, RV32_REGISTER_AS, None) == Some(
            self.loadstore_register_operations,
        )
        &&& spec_total(v.loadstore_stats, RV32_MEMORY_AS, None) == Some(
            self.loadstore_memory_operations,
        )
        &&& lists_space(self.per_register@, v.stats, RV32_REGISTER_AS)
        &&& lists_space(self.per_register_loadstore@, v.loadstore_stats, RV32_REGISTER_AS)
    }

    /// Loads and stores make no more of the operations than there are.
    pub open spec fn loadstore_within_all(&self) -> bool {
        &&& self.loadstore_register_operations <= self.registers.operations
        &&& self.loadstore_memory_operations <= self.memory.operations
    }

    /// The report of a run, if its totals can be held.
    pub fn new(ctx: &E1Ctx) -> (r: Option<Self>)
        ensures
            match r {
                Some(report) => report.reports(ctx.ctx_view()) && report.loadstore_within_all(),
                None => !reportable(ctx.ctx_view()),
            },
    {
        let stats = ctx.stats();
        let loadstore_stats = ctx.loadstore_stats();
        let registers = match totals(stats, RV32_REGISTER_AS) {
            Some(t) => t,
            None => {
                return None;
            },
        };
        let memory = match totals(stats, RV32_MEMORY_AS) {
            Some(t) => t,
            None => {
                return None;
            },
        };
        let loadstore_register_operations = match loadstore_stats.total(RV32_REGISTER_AS, None) {
            Some(n) => n,
            None => {
                return None;
            },
        };
        let loadstore_memory_operations = match loadstore_stats.total(RV32_MEMORY_AS, None) {
            Some(n) => n,
            None => {
                return None;
            },
        };
        proof {
            let v = ctx.ctx_view();
            law_loadstore_total_within(v, RV32_REGISTER_AS);
            law_loadstore_total_within(v, RV32_MEMORY_AS);
        }
        Some(
            AccessReport {
                registers,
                memory,
                loadstore_register_operations,
                loadstore_memory_operations,
                per_register: stats.per_pointer(RV32_REGISTER_AS),
                per_register_loadstore: loadstore_stats.per_pointer(RV32_REGISTER_AS),
            },
        )
    }
}

/// Loads and stores access an address space no more often than it is accessed at all.
pub proof fn law_loadstore_total_within(v: E1View, address_space: u32)
    requires
        loadstore_within(v),
        v.stats.dom().finite(),
    ensures
        0 <= count_sum(v.loadstore_stats, selects(address_space, None)) <= count_sum(
            v.stats,
            selects(address_space, None),
        ),
{
    law_count_sum_monotone(v.loadstore_stats, v.stats, selects(address_space, None));
    lemma_count_sum_nonneg(v.loadstore_stats, selects(address_space, None));
}

/// The operations of a report are its reads and its writes.
pub proof fn law_report_adds_up(report: AccessReport, v: E1View)
    requires
        report.reports(v),
    ensures
        report.registers.operations == report.registers.reads + report.registers.writes,
        report.memory.operations == report.memory.reads + report.memory.writes,
{
    law_total_is_reads_and_writes(v.stats, RV32_REGISTER_AS);
    law_total_is_reads_and_writes(v.stats, RV32_MEMORY_AS);
    lemma_count_sum_nonneg(v.stats, selects(RV32_REGISTER_AS, None));
    lemma_count_sum_nonneg(v.stats, selects(RV32_REGISTER_AS, Some(MemOp::Read)));
    lemma_count_sum_nonneg(v.stats, selects(RV32_REGISTER_AS, Some(MemOp::Write)));
    lemma_count_sum_nonneg(v.stats, selects(RV32_MEMORY_AS, None));
    lemma_count_sum_nonneg(v.stats, selects(RV32_MEMORY_AS, Some(MemOp::Read)));
    lemma_count_sum_nonneg(v.stats, selects(RV32_MEMORY_AS, Some(MemOp::Write)));
}

} // verus!
