//! What chips are made of, and which trace heights they take.
use crate::arch::vm::complex::{
    create_and_initialize_chip_complex, height_of, heights_usable, initialized,
    is_next_power_of_two, is_power_at, law_executor_heights, lemma_next_power_unique,
    next_power_of_two, spec_next_power_of_two, takes,
    ChipId, VmChipComplex, VmComplexTraceHeights,
};
use crate::arch::vm::config::{MemoryConfig, SystemConfig, VmConfig, VmInventoryError};
use crate::arch::vm::control::NoExecutors;
use crate::arch::vm::exe::{stripped, Program};
use crate::arch::vm::run_meaning::same_instructions;
use crate::field::PrimeField32;
use crate::system::memory::MemoryImage;
use vstd::arithmetic::power2::*;
use vstd::prelude::*;

verus! {

/// The next power of two is a power of two that is not below the number, and no other such power is
/// below it.
pub proof fn law_next_power_of_two(n: u32, r: u32)
    requires
        call_ensures(next_power_of_two, (n,), r),
    ensures
        exists|k: nat| r == #[trigger] pow2(k),
        n <= r,
        forall|k: nat| n <= #[trigger] pow2(k) ==> r <= pow2(k),
{
    lemma_least_power(n as int, r as int);
}

proof fn lemma_least_power(n: int, r: int)
    requires
        exists|k: nat| #[trigger] is_power_at(n, r, k),
    ensures
        exists|k: nat| r == #[trigger] pow2(k),
        n <= r,
        forall|k: nat| n <= #[trigger] pow2(k) ==> r <= pow2(k),
{
    let k = choose|k: nat| #[trigger] is_power_at(n, r, k);
    assert(r == pow2(k));
    assert forall|j: nat| n <= #[trigger] pow2(j) implies r <= pow2(j) by {
        if j < k {
            if j < k - 1 {
                lemma_pow2_strictly_increases(j, (k - 1) as nat);
            }
        } else if k < j {
            lemma_pow2_strictly_increases(k, j);
        }
    }
}

proof fn lemma_power_exists(n: int) -> (r: int)
    requires
        0 <= n <= 0x8000_0000,
    ensures
        r == spec_next_power_of_two(n),
        exists|k: nat| #[trigger] is_power_at(n, r, k),
        r <= 0x8000_0000,
{
    lemma2_to64();
    let k = lemma_power_found(n, 31);
    assert(is_power_at(n, pow2(k) as int, k));
    assert(is_next_power_of_two(n, pow2(k) as int));
    lemma_next_power_unique(n, pow2(k) as int, spec_next_power_of_two(n));
    if k < 31 {
        lemma_pow2_strictly_increases(k, 31);
    }
    pow2(k) as int
}

proof fn lemma_power_found(n: int, j: nat) -> (k: nat)
    requires
        n <= pow2(j),
    ensures
        k <= j,
        is_power_at(n, pow2(k) as int, k),
    decreases j,
{
    if j > 0 && n <= pow2((j - 1) as nat) {
        lemma_power_found(n, (j - 1) as nat)
    } else {
        j
    }
}

/// Public values have a chip if there are some and the program runs in one segment.
pub proof fn law_has_public_values_chip(config: SystemConfig, r: bool)
    requires
        call_ensures(SystemConfig::has_public_values_chip, (&config,), r),
    ensures
        r <==> config.num_public_values != 0 && !config.continuation_enabled,
{
}

/// A copy of a configuration has all that the configuration has.
pub proof fn law_config_clone(config: SystemConfig, r: SystemConfig)
    requires
        call_ensures(<SystemConfig as Clone>::clone, (&config,), r),
    ensures
        r.continuation_enabled == config.continuation_enabled,
        r.profiling == config.profiling,
        r.num_public_values == config.num_public_values,
        r.memory_config.addr_space_sizes@ == config.memory_config.addr_space_sizes@,
        r.segmentation_limits.max_trace_height == config.segmentation_limits.max_trace_height,
        r.segmentation_limits.max_cells == config.segmentation_limits.max_cells,
{
}

/// A copy of the sizes of the address spaces has the same ones.
pub proof fn law_memory_config_clone(config: MemoryConfig, r: MemoryConfig)
    requires
        call_ensures(<MemoryConfig as Clone>::clone, (&config,), r),
    ensures
        r.addr_space_sizes@ == config.addr_space_sizes@,
{
}

/// A copy of trace heights has the same ones.
pub proof fn law_heights_clone(heights: VmComplexTraceHeights, r: VmComplexTraceHeights)
    requires
        call_ensures(<VmComplexTraceHeights as Clone>::clone, (&heights,), r),
    ensures
        r.system.memory@ == heights.system.memory@,
        r.inventory.chips@ == heights.inventory.chips@,
{
}

/// A machine without extensions has chips: its memory has the sizes of the configuration and holds
/// zeros, it has one AIR for the memory, or two if programs run over several segments, and nothing
/// else.
pub proof fn law_bare_machine<F: PrimeField32>(
    config: SystemConfig,
    r: Result<VmChipComplex<F, NoExecutors>, VmInventoryError>,
)
    requires
        <SystemConfig as VmConfig<F>>::creates(&config, r),
    ensures
        r matches Ok(c) && {
            &&& c.memory@.len() == config.memory_config.addr_space_sizes@.len()
            &&& c.memory_num_airs == 1 || c.memory_num_airs == 2
            &&& c.memory_num_airs == 2 <==> config.continuation_enabled
            &&& c.program.instructions_and_debug_infos@.len() == 0
            &&& c.num_access_adapters == 0
            &&& c.executor_heights@.len() == 0
            &&& c.initial_memory is None
            &&& c.begin is None
            &&& c.end is None
        },
{
}

/// The first place of the access adapters among the trace heights: after the program, the connector
/// and the public values if they have a chip, and after the boundary of the memory, which with
/// continuations has a second AIR.
pub open spec fn first_adapter(config: SystemConfig) -> int {
    if config.continuation_enabled || config.num_public_values > 0 {
        4
    } else {
        3
    }
}

/// The first place of the chips of the extensions among the trace heights: after the program, the
/// connector, the public values if they have a chip, and the memory.
pub open spec fn first_extension<F, X>(c: VmChipComplex<F, X>) -> int {
    c.memory_num_airs + (if c.config.continuation_enabled || c.config.num_public_values == 0 {
        2int
    } else {
        3
    })
}

/// `r` is the least power of two that is not below `n`.
pub open spec fn least_power(n: int, r: int) -> bool {
    &&& exists|k: nat| r == #[trigger] pow2(k)
    &&& n <= r
    &&& forall|k: nat| n <= #[trigger] pow2(k) ==> r <= pow2(k)
}

/// The chips `d` are the chips `c` with a program that has the given instructions, and with the
/// given memory if there is one. Debug information is kept by a machine that profiles, and by no
/// other.
pub open spec fn takes_program<F: Copy, X>(
    c: VmChipComplex<F, X>,
    d: VmChipComplex<F, X>,
    profiling: bool,
    program: Program<F>,
    memory: Option<MemoryImage>,
) -> bool {
    &&& same_instructions(program, d.program)
    &&& forall|i: int|
        0 <= i < program.instructions_and_debug_infos@.len() ==> ((
        #[trigger] d.program.instructions_and_debug_infos@[i]) matches Some(entry) ==> (
        if profiling {
            program.instructions_and_debug_infos@[i] == Some(entry)
        } else {
            entry.1 is None
        }))
    &&& match memory {
        Some(m) => d.memory@ == m@ && (d.initial_memory matches Some(i) && i@ == m@),
        None => d.memory == c.memory && d.initial_memory == c.initial_memory,
    }
    &&& d.config == c.config
    &&& d.insertion_order == c.insertion_order
    &&& d.begin == c.begin
    &&& d.end == c.end
    &&& d.executors == c.executors
}

/// The chips `d` are the chips `c` with heights from `max`: the access adapters have those from
/// their first place on; the chips of the extensions, the last one that was added first, have those
/// from theirs on, raised to a power of two.
pub open spec fn takes_heights<F, X>(
    c: VmChipComplex<F, X>,
    d: VmChipComplex<F, X>,
    max: Seq<u32>,
) -> bool {
    let order = c.insertion_order@;
    &&& d.adapter_heights@.len() == c.num_access_adapters
    &&& forall|i: int|
        0 <= i < c.num_access_adapters ==> #[trigger] d.adapter_heights@[i]
            == max[first_adapter(c.config) + i]
    &&& d.executor_heights@.len() == c.executor_heights@.len()
    &&& forall|p: int, e: usize|
        {
            let at = first_extension(c) + order.len() - 1 - p;
            0 <= p < order.len() && #[trigger] order[p] == ChipId::Executor(e) && e
                < c.executor_heights@.len() ==> if at < max.len() {
                least_power(max[at] as int, #[trigger] d.executor_heights@[e as int] as int)
            } else {
                d.executor_heights@[e as int] == c.executor_heights@[e as int]
            }
        }
    &&& forall|e: int|
        0 <= e < c.executor_heights@.len() && !order.contains(ChipId::Executor(e as usize))
            ==> #[trigger] d.executor_heights@[e] == c.executor_heights@[e]
}

/// A program and a memory that were set are taken.
pub proof fn lemma_takes_program<F: PrimeField32, X>(
    c: VmChipComplex<F, X>,
    d: VmChipComplex<F, X>,
    profiling: bool,
    program: Program<F>,
    memory: Option<MemoryImage>,
    max: Option<Seq<u32>>,
)
    requires
        initialized(
            c,
            d,
            profiling,
            program,
            match memory {
                Some(m) => Some(m@),
                None => None,
            },
            max,
        ),
    ensures
        takes_program(c, d, profiling, program, memory),
{
    let entries = program.instructions_and_debug_infos@;
    let kept = d.program.instructions_and_debug_infos@;
    assert forall|i: int| 0 <= i < entries.len() implies match (#[trigger] entries[i]) {
        Some(entry) => kept[i] matches Some(other) && other.0 == entry.0,
        None => kept[i] is None,
    } by {
        if !profiling {
            assert(kept[i] == stripped(entries[i]));
        }
    }
    assert forall|i: int| 0 <= i < entries.len() implies ((#[trigger] kept[i]) matches Some(entry)
        ==> (if profiling {
        entries[i] == Some(entry)
    } else {
        entry.1 is None
    })) by {
        if !profiling {
            assert(kept[i] == stripped(entries[i]));
        }
    }
}

/// Heights that were set are taken.
pub proof fn lemma_takes_heights<F: PrimeField32, X>(
    c: VmChipComplex<F, X>,
    d: VmChipComplex<F, X>,
    profiling: bool,
    program: Program<F>,
    memory: Option<Seq<Seq<u32>>>,
    max: Seq<u32>,
)
    requires
        initialized(c, d, profiling, program, memory, Some(max)),
        heights_usable(&c, max),
        c.insertion_order@.no_duplicates(),
    ensures
        takes_heights(c, d, max),
{
    let order = c.insertion_order@;
    let n = order.len() as int;
    let offset = c.spec_executor_offset();
    let before = c.executor_heights@;
    law_executor_heights(order, max, offset, before, n);
    assert(offset == first_extension(c));
    assert(c.spec_adapter_offset() == first_adapter(c.config));
    assert forall|p: int, e: usize|
        {
            let at = first_extension(c) + order.len() - 1 - p;
            0 <= p < order.len() && #[trigger] order[p] == ChipId::Executor(e) && e
                < before.len() ==> if at < max.len() {
                least_power(max[at] as int, #[trigger] d.executor_heights@[e as int] as int)
            } else {
                d.executor_heights@[e as int] == before[e as int]
            }
        } by {
        let at = first_extension(c) + order.len() - 1 - p;
        if 0 <= p < order.len() && order[p] == ChipId::Executor(e) && e < before.len() {
            let i = n - 1 - p;
            assert(takes(order, n, e as int, i));
            let j = choose|j: int| takes(order, n, e as int, j);
            assert(order[n - 1 - j] == order[p]);
            assert(j == i);
            assert(d.executor_heights@[e as int] == height_of(
                order,
                max,
                offset,
                before,
                n,
                e as int,
            ));
            if at < max.len() {
                assert(max[at] <= 0x8000_0000) by {
                    assert(order[p] matches ChipId::Executor(x) && x < before.len());
                }
                let r = lemma_power_exists(max[at] as int);
                lemma_least_power(max[at] as int, r);
            }
        }
    }
    assert forall|e: int|
        0 <= e < before.len() && !order.contains(ChipId::Executor(e as usize)) implies (
    #[trigger] d.executor_heights@[e]) == before[e] by {
        assert(d.executor_heights@[e] == height_of(order, max, offset, before, n, e));
        if exists|i: int| takes(order, n, e, i) {
            let i = choose|i: int| takes(order, n, e, i);
            assert(order.contains(order[n - 1 - i]));
        }
    }
}

/// The chips of a machine are those of its configuration with the program, the memory if one is
/// given, and the trace heights if they are given.
pub proof fn law_chips_initialized<F: PrimeField32, VC: VmConfig<F>>(
    config: VC,
    program: Program<F>,
    memory: Option<MemoryImage>,
    max: Option<&[u32]>,
    r: Result<VmChipComplex<F, VC::Executor>, VmInventoryError>,
)
    requires
        max matches Some(max) ==> forall|c: VmChipComplex<F, VC::Executor>|
            #[trigger] config.creates(Ok(c)) ==> heights_usable(&c, max@)
                && c.insertion_order@.no_duplicates(),
        call_ensures(
            create_and_initialize_chip_complex::<F, VC>,
            (&config, program, memory, max),
            r,
        ),
    ensures
        r matches Err(e) ==> config.creates(Err(e)),
        r matches Ok(d) ==> exists|c: VmChipComplex<F, VC::Executor>|
            {
                &&& #[trigger] config.creates(Ok(c))
                &&& takes_program(c, d, config.spec_system().profiling, program, memory)
                &&& match max {
                    Some(max) => takes_heights(c, d, max@),
                    None => {
                        &&& d.adapter_heights == c.adapter_heights
                        &&& d.executor_heights == c.executor_heights
                    },
                }
            },
{
    if r is Ok {
        let d = r->Ok_0;
        let m = match memory {
            Some(m) => Some(m@),
            None => None,
        };
        let h = match max {
            Some(max) => Some(max@),
            None => None,
        };
        let profiling = config.spec_system().profiling;
        let c = choose|c: VmChipComplex<F, VC::Executor>| #[trigger]
            config.creates(Ok(c)) && initialized(c, d, profiling, program, m, h);
        lemma_takes_program(c, d, profiling, program, memory, h);
        if max is Some {
            lemma_takes_heights(c, d, profiling, program, m, max->0@);
        }
    }
}

} // verus!
