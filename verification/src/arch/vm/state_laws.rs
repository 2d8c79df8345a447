//! What a run starts with.
use crate::arch::vm::config::MemoryConfig;
use crate::arch::vm::exe::VmExe;
use crate::arch::vm::rng::seeded;
use crate::arch::vm::state::{create_initial_state, create_memory_image, VmState};
use crate::arch::vm::streams::{ByteStore, KvStore, Streams};
use crate::system::memory::{MemoryImage, SparseMemoryImage};
use crate::system::memory_laws::{lemma_stored_byte, stored_byte};
use std::collections::VecDeque;
use vstd::prelude::*;

verus! {

/// There is such a byte in an address space of the given sizes: the cells of the first four address
/// spaces have one byte, those of the others four.
pub open spec fn has_byte(sizes: Seq<usize>, addr_space: int, index: int) -> bool {
    &&& 0 <= addr_space < sizes.len()
    &&& 0 <= index
    &&& addr_space < 4 ==> index < sizes[addr_space]
    &&& addr_space >= 4 ==> index < 4 * sizes[addr_space]
}

/// The byte is the one that is listed for its place, or zero if none is.
pub open spec fn byte_is_listed(
    image: SparseMemoryImage,
    addr_space: int,
    index: int,
    value: int,
) -> bool {
    &&& forall|n: int|
        0 <= n < image.bytes@.len() && (#[trigger] image.bytes@[n]).addr_space == addr_space
            && image.bytes@[n].index == index ==> value == image.bytes@[n].value
    &&& (forall|n: int|
        0 <= n < image.bytes@.len() ==> !((#[trigger] image.bytes@[n]).addr_space == addr_space
            && image.bytes@[n].index == index)) ==> value == 0
}

/// The memory of a listed image has each byte in its place, and zeros elsewhere.
pub proof fn law_memory_image(
    memory_config: MemoryConfig,
    init_memory: SparseMemoryImage,
    r: MemoryImage,
    addr_space: int,
    index: int,
)
    requires
        init_memory.wf(),
        has_byte(memory_config.addr_space_sizes@, addr_space, index),
        call_ensures(create_memory_image, (&memory_config, &init_memory), r),
    ensures
        r.mem@.len() == memory_config.addr_space_sizes@.len(),
        r.mem@[addr_space]@.len() == memory_config.addr_space_sizes@[addr_space],
        byte_is_listed(init_memory, addr_space, index, stored_byte(r, addr_space, index)),
{
    lemma_stored_byte(memory_config.addr_space_sizes@, init_memory, r, addr_space, index);
}

/// A program starts at its first program counter, with no instruction retired, the memory of its
/// image, the given input, and a generator with the given seed.
pub proof fn law_initial_state<F>(
    memory_config: MemoryConfig,
    exe: VmExe<F>,
    input: Streams<F>,
    seed: u64,
    r: VmState<F>,
    addr_space: int,
    index: int,
)
    requires
        exe.init_memory.wf(),
        has_byte(memory_config.addr_space_sizes@, addr_space, index),
        call_ensures(create_initial_state::<F>, (&memory_config, &exe, input, seed), r),
    ensures
        r.instret == 0,
        r.pc == exe.pc_start,
        r.input == input,
        r.rng == seeded(seed),
        r.memory.mem@.len() == memory_config.addr_space_sizes@.len(),
        r.memory.mem@[addr_space]@.len() == memory_config.addr_space_sizes@[addr_space],
        byte_is_listed(
            exe.init_memory,
            addr_space,
            index,
            stored_byte(r.memory, addr_space, index),
        ),
{
    lemma_stored_byte(
        memory_config.addr_space_sizes@,
        exe.init_memory,
        r.memory,
        addr_space,
        index,
    );
}

/// A state of a run holds what it is given.
pub proof fn law_state_new<F>(
    instret: u64,
    pc: u32,
    memory: MemoryImage,
    input: Streams<F>,
    seed: u64,
    r: VmState<F>,
)
    requires
        call_ensures(VmState::<F>::new, (instret, pc, memory, input, seed), r),
    ensures
        r.instret == instret,
        r.pc == pc,
        r.memory == memory,
        r.input == input,
        r.rng == seeded(seed),
{
}

/// Streams begin with their input, in order, and with no hints.
pub proof fn law_streams_begin<F>(input: VecDeque<Vec<F>>, r: Streams<F>, key: Seq<u8>)
    requires
        call_ensures(Streams::<F>::new, (input,), r),
    ensures
        r.input_stream@ == input@,
        r.hint_stream@.len() == 0,
        r.hint_space@.len() == 0,
        r.kv_store.lookup(key) is None,
{
}

/// Streams that are made of a queue or of a list of inputs have these inputs, in order, and no hints.
pub proof fn law_streams_from<F>(
    queue: VecDeque<Vec<F>>,
    list: Vec<Vec<F>>,
    r: Streams<F>,
    s: Streams<F>,
)
    requires
        call_ensures(<Streams<F> as From<VecDeque<Vec<F>>>>::from, (queue,), r),
        call_ensures(<Streams<F> as From<Vec<Vec<F>>>>::from, (list,), s),
    ensures
        r.input_stream@ == queue@,
        s.input_stream@ == list@,
        r.hint_stream@.len() == 0 && r.hint_space@.len() == 0,
        s.hint_stream@.len() == 0 && s.hint_space@.len() == 0,
{
}

/// A store gives back for a key what was last set for it, and for other keys what it gave before.
pub proof fn law_store_gives_back(
    store: &mut ByteStore,
    key: Vec<u8>,
    value: Vec<u8>,
    asked: &[u8],
    before: Option<&[u8]>,
    after: Option<&[u8]>,
)
    requires
        call_ensures(<ByteStore as KvStore>::get, (&*old(store), asked), before),
        call_ensures(ByteStore::insert, (store, key, value), ()),
        call_ensures(<ByteStore as KvStore>::get, (&*final(store), asked), after),
    ensures
        asked@ == key@ ==> (after matches Some(v) && v@ == value@),
        asked@ != key@ ==> match before {
            Some(v) => (after matches Some(w) && w@ == v@),
            None => after is None,
        },
{
    assert(final(store).lookup(asked@) == (if asked@ == key@ {
        Some(value@)
    } else {
        old(store).lookup(asked@)
    }));
}

/// Streams that are given nothing have no input and no hints.
pub proof fn law_empty_streams<F>(r: Streams<F>, key: Seq<u8>)
    requires
        call_ensures(<Streams<F> as Default>::default, (), r),
    ensures
        r.input_stream@.len() == 0,
        r.hint_stream@.len() == 0,
        r.hint_space@.len() == 0,
        r.kv_store.lookup(key) is None,
{
}

} // verus!
