//! The chips of a machine, and their trace heights.
use crate::arch::vm::config::{SystemConfig, VmConfig, VmInventoryError};
use crate::arch::vm::exe::Program;
use crate::arch::vm::verify::PUBLIC_VALUES_AIR_ID;
use crate::field::PrimeField32;
use crate::system::memory::MemoryImage;
use vstd::arithmetic::power2::*;
use vstd::prelude::*;

verus! {

/// The place of a chip in its inventory.
#[derive(Clone, Copy, Debug, PartialEq, Eq, Structural)]
pub enum ChipId {
    Executor(usize),
    Periphery(usize),
}

/// Trace heights of the chips that every machine has.
#[derive(Debug)]
pub struct SystemTraceHeights {
    pub memory: Vec<usize>,
}

/// Trace heights of the chips of the extensions.
#[derive(Debug)]
pub struct VmInventoryTraceHeights {
    pub chips: Vec<(ChipId, usize)>,
}

/// Trace heights of all chips.
#[derive(Debug)]
pub struct VmComplexTraceHeights {
    pub system: SystemTraceHeights,
    pub inventory: VmInventoryTraceHeights,
}

impl VmComplexTraceHeights {
    /// The heights are the same.
    pub open spec fn same(&self, other: &Self) -> bool {
        &&& self.system.memory@ == other.system.memory@
        &&& self.inventory.chips@ == other.inventory.chips@
    }
}

impl Clone for VmComplexTraceHeights {
    fn clone(&self) -> (r: Self)
        ensures
            r.same(self),
    {
        let memory = self.system.memory.clone();
        assert(memory@ =~= self.system.memory@);
        let mut chips: Vec<(ChipId, usize)> = Vec::new();
        for i in 0..self.inventory.chips.len()
            invariant
                chips@ == self.inventory.chips@.take(i as int),
        {
            chips.push(self.inventory.chips[i]);
            assert(chips@ =~= self.inventory.chips@.take(i + 1));
        }
        assert(chips@ =~= self.inventory.chips@);
        VmComplexTraceHeights {
            system: SystemTraceHeights { memory },
            inventory: VmInventoryTraceHeights { chips },
        }
    }
}

/// The state of the machine at an end of a segment.
#[derive(Clone, Copy, Debug, PartialEq, Eq, Structural)]
pub struct ConnectorState {
    pub pc: u32,
    /// One if the program ended there, otherwise zero.
    pub is_terminate: u32,
    pub exit_code: u32,
}

/// The chips of a machine, as far as their traces are concerned.
pub struct VmChipComplex<F, X> {
    pub config: SystemConfig,
    pub program: Program<F>,
    /// The memory at the start, if it was set.
    pub initial_memory: Option<MemoryImage>,
    pub memory: MemoryImage,
    /// The number of AIRs of the memory.
    pub memory_num_airs: usize,
    pub num_access_adapters: usize,
    /// The trace heights that were set for the access adapters.
    pub adapter_heights: Vec<u32>,
    /// The order in which chips were added.
    pub insertion_order: Vec<ChipId>,
    /// The trace height of every executor.
    pub executor_heights: Vec<usize>,
    pub overridden_system: Option<SystemTraceHeights>,
    pub overridden_inventory: Option<VmInventoryTraceHeights>,
    /// Where the segment began.
    pub begin: Option<ConnectorState>,
    /// Where the segment ended.
    pub end: Option<ConnectorState>,
    /// What executes the instructions.
    pub executors: X,
}

impl<F, X> VmChipComplex<F, X> {
    /// The chips differ at most in their memory, in the ends of the segment and in what executes
    /// the instructions.
    pub open spec fn same_layout(&self, other: &Self) -> bool {
        &&& self.config == other.config
        &&& self.program == other.program
        &&& self.initial_memory == other.initial_memory
        &&& self.memory_num_airs == other.memory_num_airs
        &&& self.num_access_adapters == other.num_access_adapters
        &&& self.adapter_heights == other.adapter_heights
        &&& self.insertion_order == other.insertion_order
        &&& self.executor_heights == other.executor_heights
        &&& self.overridden_system == other.overridden_system
        &&& self.overridden_inventory == other.overridden_inventory
    }

    /// The first AIR after those that come before the memory.
    pub open spec fn spec_boundary_idx(&self) -> int {
        if self.config.spec_has_public_values_chip() {
            PUBLIC_VALUES_AIR_ID + 1
        } else {
            PUBLIC_VALUES_AIR_ID as int
        }
    }

    /// The first AIR of the extensions.
    pub open spec fn spec_executor_offset(&self) -> int {
        self.spec_boundary_idx() + self.memory_num_airs
    }

    /// The first AIR of the access adapters.
    pub open spec fn spec_adapter_offset(&self) -> int {
        self.spec_boundary_idx() + (if self.config.continuation_enabled {
            2int
        } else {
            1
        })
    }
}

/// `r` is the least power of two that is at least `n`.
pub open spec fn is_next_power_of_two(n: int, r: int) -> bool {
    exists|k: nat| #[trigger] is_power_at(n, r, k)
}

/// `r` is `2^k`, which is at least `n`, and `2^(k - 1)` is not.
pub open spec fn is_power_at(n: int, r: int, k: nat) -> bool {
    r == pow2(k) && n <= r && (k > 0 ==> pow2((k - 1) as nat) < n)
}

/// The least power of two that is at least `n`.
pub open spec fn spec_next_power_of_two(n: int) -> int {
    choose|r: int| is_next_power_of_two(n, r)
}

/// The least power of two that is at least `n`.
pub fn next_power_of_two(n: u32) -> (r: u32)
    requires
        n <= 0x8000_0000,
    ensures
        is_next_power_of_two(n as int, r as int),
        r == spec_next_power_of_two(n as int),
{
    let mut r: u32 = 1;
    let ghost mut k: nat = 0;
    proof {
        lemma2_to64();
    }
    while r < n
        invariant
            n <= 0x8000_0000,
            r == pow2(k),
            r >= 1,
            k <= 31,
            k > 0 ==> pow2((k - 1) as nat) < n,
        decreases 0x1_0000_0000 - r,
    {
        proof {
            lemma2_to64();
            lemma_pow2_unfold(k + 1);
            if k == 31 {
                assert(r == 0x8000_0000);
            }
        }
        r = r * 2;
        proof {
            k = k + 1;
        }
    }
    assert(is_power_at(n as int, r as int, k));
    assert(is_next_power_of_two(n as int, r as int));
    proof {
        lemma_next_power_unique(n as int, r as int, spec_next_power_of_two(n as int));
    }
    r
}

/// Two powers of two that are least above the same number are equal.
pub proof fn lemma_next_power_unique(n: int, r: int, s: int)
    requires
        is_next_power_of_two(n, r),
        is_next_power_of_two(n, s),
    ensures
        r == s,
{
    let j = choose|k: nat| #[trigger] is_power_at(n, r, k);
    let k = choose|k: nat| #[trigger] is_power_at(n, s, k);
    if j < k {
        if j < k - 1 {
            lemma_pow2_strictly_increases(j, (k - 1) as nat);
        }
    } else if k < j {
        if k < j - 1 {
            lemma_pow2_strictly_increases(k, (j - 1) as nat);
        }
    }
}

/// The heights of the executors after a chip took its own from `max` at `at`: an executor of the
/// inventory takes the next power of two, if `max` goes that far.
pub open spec fn chip_sets(chip: ChipId, max: Seq<u32>, at: int, heights: Seq<usize>) -> Seq<
    usize,
> {
    match chip {
        ChipId::Executor(e) => if e < heights.len() && 0 <= at < max.len() {
            heights.update(e as int, spec_next_power_of_two(max[at] as int) as usize)
        } else {
            heights
        },
        ChipId::Periphery(_) => heights,
    }
}

/// The heights of the executors after the first `k` chips, in the order from the last one that
/// was added to the first, took theirs from `max` at `offset` on.
pub open spec fn heights_after(
    order: Seq<ChipId>,
    max: Seq<u32>,
    offset: int,
    heights: Seq<usize>,
    k: int,
) -> Seq<usize>
    decreases k,
{
    if k <= 0 {
        heights
    } else {
        chip_sets(
            order[order.len() - k],
            max,
            offset + k - 1,
            heights_after(order, max, offset, heights, k - 1),
        )
    }
}

/// The heights that executors of the inventory take have powers of two above them.
pub open spec fn taken_have_powers(
    order: Seq<ChipId>,
    max: Seq<u32>,
    offset: int,
    executors: nat,
) -> bool {
    forall|j: int|
        {
            let at = offset + order.len() - 1 - j;
            0 <= j < order.len() && (#[trigger] order[j] matches ChipId::Executor(e) && e
                < executors) && at < max.len() ==> max[at] <= 0x8000_0000
        }
}

/// Sets the trace heights of the executors, the last one that was added first.
fn set_executor_heights(
    order: &Vec<ChipId>,
    max_trace_heights: &[u32],
    offset: usize,
    heights: &mut Vec<usize>,
)
    requires
        taken_have_powers(order@, max_trace_heights@, offset as int, old(heights)@.len()),
    ensures
        final(heights)@ == heights_after(
            order@,
            max_trace_heights@,
            offset as int,
            old(heights)@,
            order@.len() as int,
        ),
{
    let ghost before = heights@;
    for i in 0..order.len()
        invariant
            taken_have_powers(order@, max_trace_heights@, offset as int, before.len()),
            heights@.len() == before.len(),
            heights@ == heights_after(
                order@,
                max_trace_heights@,
                offset as int,
                before,
                i as int,
            ),
    {
        let chip_id = order[order.len() - 1 - i];
        assert(max_trace_heights.len() == max_trace_heights@.len());
        if let ChipId::Executor(exec_id) = chip_id {
            if let Some(height_index) = offset.checked_add(i) {
                if height_index < max_trace_heights.len() && exec_id < heights.len() {
                    let height = next_power_of_two(max_trace_heights[height_index]);
                    heights[exec_id] = height as usize;
                }
            }
        }
    }
}

/// Distinct chips, the last one that was added first, take the heights that stand for them: an
/// executor has the least power of two that is at least its own, and executors that are not
/// listed, or for which no height is given, keep theirs.
pub proof fn law_executor_heights(
    order: Seq<ChipId>,
    max: Seq<u32>,
    offset: int,
    heights: Seq<usize>,
    k: int,
)
    requires
        0 <= k <= order.len(),
        0 <= offset,
        forall|i: int, j: int|
            0 <= i < j < order.len() ==> #[trigger] order[i] != #[trigger] order[j],
    ensures
        heights_after(order, max, offset, heights, k).len() == heights.len(),
        forall|e: int|
            0 <= e < heights.len() ==> #[trigger] heights_after(order, max, offset, heights, k)[e]
                == height_of(order, max, offset, heights, k, e),
    decreases k,
{
    if k > 0 {
        law_executor_heights(order, max, offset, heights, k - 1);
        let before = heights_after(order, max, offset, heights, k - 1);
        let chip = order[order.len() - k];
        let k1 = k - 1;
        assert forall|e: int| 0 <= e < heights.len() implies #[trigger] heights_after(
            order,
            max,
            offset,
            heights,
            k,
        )[e] == height_of(order, max, offset, heights, k, e) by {
            assert(before[e] == height_of(order, max, offset, heights, k - 1, e));
            if e <= usize::MAX && chip == ChipId::Executor(e as usize) {
                assert(takes(order, k, e, k - 1));
                let i = choose|i: int| takes(order, k, e, i);
                assert(i == k - 1);
                if exists|i: int| takes(order, k1, e, i) {
                    let j = choose|i: int| takes(order, k1, e, i);
                    assert(order[order.len() - 1 - j] == order[order.len() - k]);
                }
            } else {
                assert forall|i: int| takes(order, k, e, i) implies takes(order, k1, e, i) by {}
                assert forall|i: int| takes(order, k1, e, i) implies takes(
                    order,
                    k,
                    e,
                    i,
                ) by {}
                if exists|i: int| takes(order, k, e, i) {
                    let i = choose|i: int| takes(order, k, e, i);
                    let j = choose|i: int| takes(order, k1, e, i);
                    assert(takes(order, k1, e, i));
                    if i < j {
                        assert(order[order.len() - 1 - j] != order[order.len() - 1 - i]);
                    } else if j < i {
                        assert(order[order.len() - 1 - i] != order[order.len() - 1 - j]);
                    }
                }
            }
        }
    }
}

/// The executor `e` is the `i`-th of the first `k` chips from the last one on.
pub open spec fn takes(order: Seq<ChipId>, k: int, e: int, i: int) -> bool {
    0 <= i < k && e <= usize::MAX && order[order.len() - 1 - i] == ChipId::Executor(e as usize)
}

/// The height that stands for the executor `e`, or the one that it has.
pub open spec fn height_of(
    order: Seq<ChipId>,
    max: Seq<u32>,
    offset: int,
    heights: Seq<usize>,
    k: int,
    e: int,
) -> usize {
    if exists|i: int| takes(order, k, e, i) {
        let i = choose|i: int| takes(order, k, e, i);
        if offset + i < max.len() {
            spec_next_power_of_two(max[offset + i] as int) as usize
        } else {
            heights[e]
        }
    } else {
        heights[e]
    }
}

/// The heights that are given cover the access adapters, and those that executors take have powers
/// of two above them.
pub open spec fn heights_usable<F, X>(complex: &VmChipComplex<F, X>, max: Seq<u32>) -> bool {
    &&& complex.spec_adapter_offset() + complex.num_access_adapters <= max.len()
    &&& complex.spec_executor_offset() <= usize::MAX
    &&& taken_have_powers(
        complex.insertion_order@,
        max,
        complex.spec_executor_offset(),
        complex.executor_heights@.len(),
    )
}

/// `r` is the program that a machine executes: without debug information unless it profiles.
pub open spec fn loaded<F: Copy>(profiling: bool, program: Program<F>, r: Program<F>) -> bool {
    if profiling {
        r.same(&program)
    } else {
        r.is_stripped(&program)
    }
}

/// `d` is what becomes of the chips `c` when the program, the memory and the heights are set.
pub open spec fn initialized<F: Copy, X>(
    c: VmChipComplex<F, X>,
    d: VmChipComplex<F, X>,
    profiling: bool,
    program: Program<F>,
    initial_memory: Option<Seq<Seq<u32>>>,
    max: Option<Seq<u32>>,
) -> bool {
    &&& loaded(profiling, program, d.program)
    &&& match initial_memory {
        Some(m) => d.memory@ == m && d.initial_memory is Some && d.initial_memory->0@ == m,
        None => d.memory == c.memory && d.initial_memory == c.initial_memory,
    }
    &&& match max {
        Some(max) => {
            &&& d.adapter_heights@ == max.subrange(
                c.spec_adapter_offset(),
                c.spec_adapter_offset() + c.num_access_adapters,
            )
            &&& d.executor_heights@ == heights_after(
                c.insertion_order@,
                max,
                c.spec_executor_offset(),
                c.executor_heights@,
                c.insertion_order@.len() as int,
            )
        },
        None => d.adapter_heights == c.adapter_heights && d.executor_heights == c.executor_heights,
    }
    &&& d.config == c.config
    &&& d.insertion_order == c.insertion_order
    &&& d.memory_num_airs == c.memory_num_airs
    &&& d.num_access_adapters == c.num_access_adapters
    &&& d.overridden_system == c.overridden_system
    &&& d.overridden_inventory == c.overridden_inventory
    &&& d.begin == c.begin
    &&& d.end == c.end
    &&& d.executors == c.executors
}

/// Takes the trace heights of the access adapters and of the executors from `max_trace_heights`.
fn set_trace_heights<F, X>(complex: &mut VmChipComplex<F, X>, max_trace_heights: &[u32])
    requires
        heights_usable(old(complex), max_trace_heights@),
    ensures
        final(complex).same_layout(
            &(VmChipComplex {
                adapter_heights: final(complex).adapter_heights,
                executor_heights: final(complex).executor_heights,
                ..*old(complex)
            }),
        ),
        final(complex).memory == old(complex).memory,
        final(complex).begin == old(complex).begin,
        final(complex).end == old(complex).end,
        final(complex).executors == old(complex).executors,
        final(complex).adapter_heights@ == max_trace_heights@.subrange(
            old(complex).spec_adapter_offset(),
            old(complex).spec_adapter_offset() + old(complex).num_access_adapters,
        ),
        final(complex).executor_heights@ == heights_after(
            old(complex).insertion_order@,
            max_trace_heights@,
            old(complex).spec_executor_offset(),
            old(complex).executor_heights@,
            old(complex).insertion_order@.len() as int,
        ),
{
    let boundary_idx: usize = if complex.config.has_public_values_chip() {
        PUBLIC_VALUES_AIR_ID + 1
    } else {
        PUBLIC_VALUES_AIR_ID
    };
    let executor_chip_offset = boundary_idx + complex.memory_num_airs;
    let adapter_offset = if complex.config.continuation_enabled {
        boundary_idx + 2
    } else {
        boundary_idx + 1
    };
    let n = complex.num_access_adapters;
    let mut adapter_heights: Vec<u32> = Vec::new();
    assert(max_trace_heights.len() == max_trace_heights@.len());
    for i in 0..n
        invariant
            adapter_offset + n <= max_trace_heights@.len() <= usize::MAX,
            adapter_heights@ == max_trace_heights@.subrange(
                adapter_offset as int,
                adapter_offset + i,
            ),
    {
        adapter_heights.push(max_trace_heights[adapter_offset + i]);
        assert(adapter_heights@ =~= max_trace_heights@.subrange(
            adapter_offset as int,
            adapter_offset + i + 1,
        ));
    }
    complex.adapter_heights = adapter_heights;
    set_executor_heights(
        &complex.insertion_order,
        max_trace_heights,
        executor_chip_offset,
        &mut complex.executor_heights,
    );
}

/// Makes the chips of a configuration and sets the program, the memory if one is given, and the
/// trace heights if they are given.
pub fn create_and_initialize_chip_complex<F: PrimeField32, VC: VmConfig<F>>(
    config: &VC,
    program: Program<F>,
    initial_memory: Option<MemoryImage>,
    max_trace_heights: Option<&[u32]>,
) -> (r: Result<VmChipComplex<F, VC::Executor>, VmInventoryError>)
    requires
        max_trace_heights matches Some(max) ==> forall|c: VmChipComplex<F, VC::Executor>|
            #[trigger] config.creates(Ok(c)) ==> heights_usable(&c, max@),
    ensures
        match r {
            Err(e) => config.creates(Err(e)),
            Ok(d) => exists|c: VmChipComplex<F, VC::Executor>| #[trigger]
                config.creates(Ok(c)) && initialized(
                    c,
                    d,
                    config.spec_system().profiling,
                    program,
                    match initial_memory {
                        Some(m) => Some(m@),
                        None => None,
                    },
                    match max_trace_heights {
                        Some(max) => Some(max@),
                        None => None,
                    },
                ),
        },
        r matches Ok(d) ==> d.config.same(&config.spec_system()),
{
    let mut complex = match config.create_chip_complex() {
        Ok(c) => c,
        Err(e) => {
            return Err(e);
        },
    };
    let ghost created = complex;
    complex.program = if !config.system().profiling {
        program.strip_debug_infos()
    } else {
        program
    };
    if let Some(memory) = initial_memory {
        complex.memory = memory.clone();
        complex.initial_memory = Some(memory);
    }
    if let Some(max_trace_heights) = max_trace_heights {
        set_trace_heights(&mut complex, max_trace_heights);
    }
    assert(config.creates(Ok(created)));
    Ok(complex)
}

} // verus!
