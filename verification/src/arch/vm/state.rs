//! The state of a run between segments.
use crate::arch::vm::config::MemoryConfig;
use crate::arch::vm::exe::VmExe;
use crate::arch::vm::rng::{seed_from_u64, seeded};
use crate::arch::vm::streams::Streams;
use crate::instructions::NATIVE_AS;
use crate::system::memory::{
    byte_at, byte_of, cell_size, in_bounds, AddressMap, MemoryImage, SparseMemoryImage,
};
use rand::rngs::StdRng;
use vstd::prelude::*;

verus! {

/// The state of a run between segments.
pub struct VmState<F> {
    /// The number of instructions that retired.
    pub instret: u64,
    pub pc: u32,
    pub memory: MemoryImage,
    pub input: Streams<F>,
    pub rng: StdRng,
}

impl<F> VmState<F> {
    pub fn new(instret: u64, pc: u32, memory: MemoryImage, input: Streams<F>, seed: u64) -> (r: Self)
        ensures
            r.instret == instret,
            r.pc == pc,
            r.memory == memory,
            r.input == input,
            r.rng == seeded(seed),
    {
        VmState { instret, pc, memory, input, rng: seed_from_u64(seed) }
    }
}

/// The memory holds the bytes of a sparse image, and zeros elsewhere.
pub open spec fn holds_image(
    memory: &MemoryImage,
    sizes: Seq<usize>,
    init_memory: &SparseMemoryImage,
) -> bool {
    &&& memory.has_sizes(sizes)
    &&& forall|a: int, k: int|
        in_bounds(sizes, a, k) ==> #[trigger] byte_at(memory@, a, k) == init_memory.lookup(a, k)
    &&& forall|a: int, i: int|
        a < NATIVE_AS && 0 <= a < sizes.len() && 0 <= i < sizes[a] ==> #[trigger] memory@[a][i]
            <= 255
}

/// The memory that a sparse image stands for.
pub fn create_memory_image(memory_config: &MemoryConfig, init_memory: &SparseMemoryImage) -> (r:
    MemoryImage)
    requires
        init_memory.wf(),
        init_memory.fits(memory_config.addr_space_sizes@),
    ensures
        holds_image(&r, memory_config.addr_space_sizes@, init_memory),
{
    AddressMap::from_sparse(&memory_config.addr_space_sizes, init_memory)
}

/// The state in which a program starts.
pub fn create_initial_state<F>(
    memory_config: &MemoryConfig,
    exe: &VmExe<F>,
    input: Streams<F>,
    seed: u64,
) -> (r: VmState<F>)
    requires
        exe.init_memory.wf(),
        exe.init_memory.fits(memory_config.addr_space_sizes@),
    ensures
        r.instret == 0,
        r.pc == exe.pc_start,
        holds_image(&r.memory, memory_config.addr_space_sizes@, &exe.init_memory),
        r.input == input,
        r.rng == seeded(seed),
{
    let memory = create_memory_image(memory_config, &exe.init_memory);
    VmState::new(0, exe.pc_start, memory, input, seed)
}

/// The cell is determined by its bytes.
proof fn lemma_cell_of_bytes(x: u32, y: u32)
    requires
        forall|k: int| 0 <= k < 4 ==> #[trigger] byte_of(x, k) == byte_of(y, k),
    ensures
        x == y,
{
    assert(byte_of(x, 0) == byte_of(y, 0));
    assert(byte_of(x, 1) == byte_of(y, 1));
    assert(byte_of(x, 2) == byte_of(y, 2));
    assert(byte_of(x, 3) == byte_of(y, 3));
}

/// The sizes and the sparse image determine the initial memory.
pub proof fn law_initial_memory_determined(
    sizes: Seq<usize>,
    init_memory: SparseMemoryImage,
    m1: MemoryImage,
    m2: MemoryImage,
)
    requires
        holds_image(&m1, sizes, &init_memory),
        holds_image(&m2, sizes, &init_memory),
    ensures
        m1@ == m2@,
{
    assert forall|a: int, i: int| 0 <= a < sizes.len() && 0 <= i < sizes[a] implies #[trigger] m1@[a][i]
        == m2@[a][i] by {
        let size = cell_size(a);
        assert forall|k: int| 0 <= k < size implies #[trigger] byte_of(m1@[a][i], k) == byte_of(
            m2@[a][i],
            k,
        ) by {
            let index = i * size + k;
            assert(0 <= index < sizes[a] * size && index / size == i && index % size == k)
                by (nonlinear_arith)
                requires
                    index == i * size + k,
                    0 <= k < size,
                    0 <= i < sizes[a],
                    size == 1 || size == 4,
            ;
            assert(in_bounds(sizes, a, index));
            assert(byte_at(m1@, a, index) == byte_at(m2@, a, index));
        }
        if a < NATIVE_AS {
            assert(m1@[a][i] <= 255 && m2@[a][i] <= 255);
            assert(byte_of(m1@[a][i], 0) == byte_of(m2@[a][i], 0));
        } else {
            lemma_cell_of_bytes(m1@[a][i], m2@[a][i]);
        }
    }
    assert(m1@ =~= m2@) by {
        assert forall|a: int| 0 <= a < sizes.len() implies #[trigger] m1@[a] == m2@[a] by {
            assert(m1@[a] =~= m2@[a]);
        }
    }
}

} // verus!
