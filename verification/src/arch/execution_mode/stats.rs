//! Counts of memory accesses.
use crate::arch::vm::report::lists_space;
use std::collections::HashMap;
use vstd::std_specs::iter::IteratorSpec;
use vstd::prelude::*;

verus! {

/// Whether an access reads or writes.
#[derive(Debug, Clone, Copy, PartialEq, Eq, Structural, Hash)]
pub enum MemOp {
    Read,
    Write,
}

impl vstd::std_specs::convert::FromSpecImpl<bool> for MemOp {
    open spec fn obeys_from_spec() -> bool {
        true
    }

    open spec fn from_spec(is_write: bool) -> MemOp {
        if is_write {
            MemOp::Write
        } else {
            MemOp::Read
        }
    }
}

impl From<bool> for MemOp {
    fn from(is_write: bool) -> (r: Self) {
        if is_write {
            MemOp::Write
        } else {
            MemOp::Read
        }
    }
}

/// An address space, a pointer and the kind of access.
pub type AccessKey = (u32, u32, MemOp);

/// The sum of the counts of the keys that `f` selects.
pub open spec fn count_sum(m: Map<AccessKey, u64>, f: spec_fn(AccessKey) -> bool) -> int
    decreases m.dom().len(),
{
    if m.dom().finite() && m.dom().len() > 0 {
        let k = m.dom().choose();
        (if f(k) {
            m[k] as int
        } else {
            0
        }) + count_sum(m.remove(k), f)
    } else {
        0
    }
}

pub proof fn lemma_count_sum_remove(
    m: Map<AccessKey, u64>,
    f: spec_fn(AccessKey) -> bool,
    k: AccessKey,
)
    requires
        m.dom().finite(),
        m.dom().contains(k),
    ensures
        count_sum(m, f) == (if f(k) {
            m[k] as int
        } else {
            0
        }) + count_sum(m.remove(k), f),
    decreases m.dom().len(),
{
    let c = m.dom().choose();
    assert(m.dom().len() > 0);
    if c != k {
        lemma_count_sum_remove(m.remove(c), f, k);
        lemma_count_sum_remove(m.remove(k), f, c);
        assert(m.remove(c).remove(k) =~= m.remove(k).remove(c));
    }
}

pub proof fn lemma_count_sum_nonneg(m: Map<AccessKey, u64>, f: spec_fn(AccessKey) -> bool)
    ensures
        count_sum(m, f) >= 0,
    decreases m.dom().len(),
{
    if m.dom().finite() && m.dom().len() > 0 {
        lemma_count_sum_nonneg(m.remove(m.dom().choose()), f);
    }
}

/// Counts of fewer keys, none of them higher, sum up to no more.
pub proof fn law_count_sum_monotone(
    fewer: Map<AccessKey, u64>,
    m: Map<AccessKey, u64>,
    f: spec_fn(AccessKey) -> bool,
)
    requires
        m.dom().finite(),
        forall|k: AccessKey| #[trigger]
            fewer.contains_key(k) ==> m.contains_key(k) && fewer[k] <= m[k],
    ensures
        count_sum(fewer, f) <= count_sum(m, f),
    decreases m.dom().len(),
{
    if m.dom().len() > 0 {
        let k = m.dom().choose();
        law_count_sum_monotone(fewer.remove(k), m.remove(k), f);
        if fewer.contains_key(k) {
            assert(fewer.dom().subset_of(m.dom()));
            vstd::set_lib::lemma_set_subset_finite(m.dom(), fewer.dom());
            lemma_count_sum_remove(fewer, f, k);
        } else {
            assert(fewer.remove(k) =~= fewer);
        }
    } else {
        assert(m.dom() =~= Set::empty());
        assert forall|k: AccessKey| !fewer.dom().contains(k) by {
            assert(fewer.contains_key(k) ==> m.dom().contains(k));
        }
        assert(fewer.dom() =~= Set::empty());
    }
}

/// The keys of an address space, of one kind of access or of both.
pub open spec fn selects(address_space: u32, op: Option<MemOp>) -> spec_fn(AccessKey) -> bool {
    |k: AccessKey| k.0 == address_space && (op is None || op == Some(k.2))
}

/// The counts of an address space, of one kind of access or of both, summed up, if the sum can be
/// held.
pub open spec fn spec_total(m: Map<AccessKey, u64>, address_space: u32, op: Option<MemOp>) -> Option<
    u64,
> {
    let sum = count_sum(m, selects(address_space, op));
    if sum <= u64::MAX {
        Some(sum as u64)
    } else {
        None
    }
}

/// `entries` lists every key of `m` once, with its count.
pub open spec fn lists(entries: Seq<(AccessKey, u64)>, m: Map<AccessKey, u64>) -> bool {
    &&& forall|i: int|
        0 <= i < entries.len() ==> m.contains_key((#[trigger] entries[i]).0) && m[entries[i].0]
            == entries[i].1
    &&& forall|i: int, j: int|
        0 <= i < j < entries.len() ==> (#[trigger] entries[i]).0 != (#[trigger] entries[j]).0
    &&& forall|k: AccessKey| #[trigger]
        m.contains_key(k) ==> exists|i: int| 0 <= i < entries.len() && (#[trigger] entries[i]).0 == k
}

/// The accesses of an address space are its reads and its writes.
pub proof fn law_total_is_reads_and_writes(m: Map<AccessKey, u64>, address_space: u32)
    ensures
        count_sum(m, selects(address_space, None)) == count_sum(
            m,
            selects(address_space, Some(MemOp::Read)),
        ) + count_sum(m, selects(address_space, Some(MemOp::Write))),
    decreases m.dom().len(),
{
    if m.dom().finite() && m.dom().len() > 0 {
        law_total_is_reads_and_writes(m.remove(m.dom().choose()), address_space);
    }
}

/// Every access adds one to the sums that it belongs to, and to no other.
pub proof fn law_counted_adds_one(
    m: Map<AccessKey, u64>,
    k: AccessKey,
    f: spec_fn(AccessKey) -> bool,
)
    requires
        m.dom().finite(),
        m.contains_key(k) ==> m[k] < u64::MAX,
    ensures
        count_sum(counted(m, k), f) == count_sum(m, f) + (if f(k) {
            1int
        } else {
            0
        }),
{
    let n = counted(m, k);
    lemma_count_sum_remove(n, f, k);
    if m.contains_key(k) {
        lemma_count_sum_remove(m, f, k);
        assert(n.remove(k) =~= m.remove(k));
    } else {
        assert(n.remove(k) =~= m);
    }
}

/// How often each key was accessed.
#[derive(Debug)]
pub struct AccessCounts {
    counts: HashMap<u128, u64>,
}

/// A key as one integer.
spec fn encode(k: AccessKey) -> u128 {
    (k.0 * 0x2_0000_0000 + k.1 * 2 + (if k.2 == MemOp::Write {
        1int
    } else {
        0
    })) as u128
}

/// The key of an integer.
spec fn decode(c: u128) -> AccessKey {
    (
        (c / 0x2_0000_0000) as u32,
        (c / 2 % 0x1_0000_0000) as u32,
        if c % 2 == 1 {
            MemOp::Write
        } else {
            MemOp::Read
        },
    )
}

proof fn lemma_encode(k: AccessKey, c: u128)
    ensures
        encode(k) < 0x2_0000_0000_0000_0000,
        decode(encode(k)) == k,
        c < 0x2_0000_0000_0000_0000 ==> encode(decode(c)) == c,
{
}

impl View for AccessCounts {
    type V = Map<AccessKey, u64>;

    closed spec fn view(&self) -> Map<AccessKey, u64> {
        Map::new(
            |k: AccessKey| self.counts@.contains_key(encode(k)),
            |k: AccessKey| self.counts@[encode(k)],
        )
    }
}

impl AccessCounts {
    /// Every integer in use is that of a key.
    #[verifier::type_invariant]
    spec fn wf(&self) -> bool {
        forall|c: u128| #[trigger] self.counts@.contains_key(c) ==> c < 0x2_0000_0000_0000_0000
    }

    pub fn new() -> (r: Self)
        ensures
            r@ == Map::<AccessKey, u64>::empty(),
    {
        broadcast use vstd::std_specs::hash::group_hash_axioms;

        let r = AccessCounts { counts: HashMap::new() };
        assert(r@ =~= Map::<AccessKey, u64>::empty());
        r
    }

    fn key(address_space: u32, ptr: u32, op: MemOp) -> (r: u128)
        ensures
            r == encode((address_space, ptr, op)),
    {
        let low: u128 = match op {
            MemOp::Read => 0,
            MemOp::Write => 1,
        };
        address_space as u128 * 0x2_0000_0000 + ptr as u128 * 2 + low
    }

    /// Counts one access.
    pub fn record(&mut self, address_space: u32, ptr: u32, op: MemOp)
        requires
            old(self)@.contains_key((address_space, ptr, op)) ==> old(self)@[(
                address_space,
                ptr,
                op,
            )] < u64::MAX,
        ensures
            final(self)@ == counted(old(self)@, (address_space, ptr, op)),
    {
        broadcast use vstd::std_specs::hash::group_hash_axioms;

        let key = Self::key(address_space, ptr, op);
        proof {
            lemma_encode((address_space, ptr, op), key);
        }
        proof {
            use_type_invariant(&*self);
        }
        let mut counts: HashMap<u128, u64> = HashMap::new();
        std::mem::swap(&mut counts, &mut self.counts);
        *counts.entry(key).or_insert(0) += 1;
        self.counts = counts;
        proof {
            let k0 = (address_space, ptr, op);
            assert forall|k: AccessKey| k != k0 implies encode(k) != key by {
                lemma_encode(k, key);
            }
            assert(self@ =~= counted(old(self)@, k0));
        }
    }

    /// How often the key was accessed, if it was.
    pub fn get(&self, address_space: u32, ptr: u32, op: MemOp) -> (r: Option<u64>)
        ensures
            r == (if self@.contains_key((address_space, ptr, op)) {
                Some(self@[(address_space, ptr, op)])
            } else {
                None
            }),
    {
        broadcast use vstd::std_specs::hash::group_hash_axioms;

        let key = Self::key(address_space, ptr, op);
        match self.counts.get(&key) {
            Some(n) => Some(*n),
            None => None,
        }
    }

    /// Lists the counts, in no particular order.
    pub fn entries(&self) -> (r: Vec<(AccessKey, u64)>)
        ensures
            lists(r@, self@),
    {
        broadcast use vstd::std_specs::hash::group_hash_axioms;

        let mut r: Vec<(AccessKey, u64)> = Vec::new();
        let iter = self.counts.iter();
        let ghost listed = iter.remaining();
        for kv in it: iter
            invariant
                r@.len() == it.index(),
                it.seq() == listed,
                forall|j: int|
                    0 <= j < r@.len() ==> #[trigger] r@[j] == (
                        decode(*it.seq()[j].0),
                        *it.seq()[j].1,
                    ),
        {
            let c = *kv.0;
            let op = if c % 2 == 1 {
                MemOp::Write
            } else {
                MemOp::Read
            };
            r.push((((c / 0x2_0000_0000) as u32, (c / 2 % 0x1_0000_0000) as u32, op), *kv.1));
        }
        proof {
            use_type_invariant(self);
            Self::lemma_listed(&self.counts, listed, r@);
        }
        r
    }

    /// The counts of an address space, of one kind of access or of both, summed up, if the sum
    /// can be held.
    pub fn total(&self, address_space: u32, op: Option<MemOp>) -> (r: Option<u64>)
        ensures
            r == spec_total(self@, address_space, op),
            self@.dom().finite(),
    {
        let entries = self.entries();
        let ghost f = selects(address_space, op);
        let ghost mut rest = self@;
        let mut sum: u64 = 0;
        proof {
            use_type_invariant(self);
            self.lemma_finite();
        }
        for i in 0..entries.len()
            invariant
                lists(entries@, self@),
                self@.dom().finite(),
                rest.dom().finite(),
                f == selects(address_space, op),
                sum + count_sum(rest, f) == count_sum(self@, f),
                forall|j: int|
                    i <= j < entries@.len() ==> rest.contains_key((#[trigger] entries@[j]).0)
                        && rest[entries@[j].0] == entries@[j].1,
                forall|k: AccessKey| #[trigger]
                    rest.contains_key(k) ==> exists|j: int|
                        i <= j < entries@.len() && (#[trigger] entries@[j]).0 == k,
        {
            let ((space, _, kind), count) = entries[i];
            proof {
                let k = entries@[i as int].0;
                assert(rest.contains_key(k));
                lemma_count_sum_remove(rest, f, k);
                lemma_count_sum_nonneg(rest.remove(k), f);
                rest = rest.remove(k);
            }
            let selected = space == address_space && match op {
                None => true,
                Some(wanted) => wanted == kind,
            };
            if selected {
                match sum.checked_add(count) {
                    Some(next) => {
                        sum = next;
                    },
                    None => {
                        return None;
                    },
                }
            }
        }
        proof {
            assert(rest.dom() =~= Set::<AccessKey>::empty()) by {
                assert forall|k: AccessKey| !rest.dom().contains(k) by {
                    assert(!rest.contains_key(k));
                }
            }
        }
        Some(sum)
    }

    /// Lists the counts of an address space, in no particular order.
    pub fn per_pointer(&self, address_space: u32) -> (r: Vec<(u32, MemOp, u64)>)
        ensures
            forall|i: int|
                0 <= i < r@.len() ==> ({
                    let e = #[trigger] r@[i];
                    self@.contains_key((address_space, e.0, e.1)) && self@[(
                        address_space,
                        e.0,
                        e.1,
                    )] == e.2
                }),
            forall|i: int, j: int|
                0 <= i < j < r@.len() ==> ({
                    let (x, y) = (#[trigger] r@[i], #[trigger] r@[j]);
                    x.0 != y.0 || x.1 != y.1
                }),
            forall|ptr: u32, op: MemOp| #[trigger]
                self@.contains_key((address_space, ptr, op)) ==> exists|i: int|
                    0 <= i < r@.len() && (#[trigger] r@[i]).0 == ptr && r@[i].1 == op,
            lists_space(r@, self@, address_space),
    {
        let entries = self.entries();
        let mut r: Vec<(u32, MemOp, u64)> = Vec::new();
        let ghost mut from: Seq<int> = Seq::empty();
        for n in 0..entries.len()
            invariant
                lists(entries@, self@),
                from.len() == r@.len(),
                forall|i: int|
                    #![trigger r@[i]]
                    #![trigger from[i]]
                    0 <= i < r@.len() ==> 0 <= from[i] < n && entries@[from[i]] == (
                        (address_space, r@[i].0, r@[i].1),
                        r@[i].2,
                    ),
                forall|i: int, j: int| 0 <= i < j < r@.len() ==> #[trigger] from[i] < #[trigger] from[j],
                forall|k: int|
                    0 <= k < n && (#[trigger] entries@[k]).0.0 == address_space ==> exists|i: int|
                        0 <= i < r@.len() && #[trigger] from[i] == k,
        {
            let ((space, ptr, kind), count) = entries[n];
            let ghost before = from;
            if space == address_space {
                r.push((ptr, kind, count));
                proof {
                    from = from.push(n as int);
                }
            }
            assert forall|k: int|
                0 <= k < n + 1 && (#[trigger] entries@[k]).0.0 == address_space implies exists|
                i: int,
            | 0 <= i < r@.len() && #[trigger] from[i] == k by {
                if k < n {
                    let i = choose|i: int| 0 <= i < before.len() && #[trigger] before[i] == k;
                    assert(from[i] == k);
                } else {
                    assert(from[from.len() - 1] == k);
                }
            }
        }
        assert forall|i: int, j: int| 0 <= i < j < r@.len() implies ({
            let (x, y) = (#[trigger] r@[i], #[trigger] r@[j]);
            x.0 != y.0 || x.1 != y.1
        }) by {
            assert(from[i] < from[j]);
            assert(entries@[from[i]].0 != entries@[from[j]].0);
        }
        assert forall|ptr: u32, op: MemOp| #[trigger]
            self@.contains_key((address_space, ptr, op)) implies exists|i: int|
            0 <= i < r@.len() && (#[trigger] r@[i]).0 == ptr && r@[i].1 == op by {
            let k = choose|k: int|
                0 <= k < entries@.len() && (#[trigger] entries@[k]).0 == (address_space, ptr, op);
            let i = choose|i: int| 0 <= i < r@.len() && #[trigger] from[i] == k;
            assert(r@[i].0 == ptr && r@[i].1 == op);
        }
        r
    }

    /// There are finitely many counts.
    proof fn lemma_finite(&self)
        requires
            self.wf(),
        ensures
            self@.dom().finite(),
    {
        broadcast use vstd::std_specs::hash::group_hash_axioms;

        let keys = self.counts@.dom().map(|c: u128| decode(c));
        self.counts@.dom().lemma_map_finite(|c: u128| decode(c));
        assert(self@.dom() =~= keys) by {
            assert forall|k: AccessKey| self@.dom().contains(k) == keys.contains(k) by {
                lemma_encode(k, encode(k));
                if self@.dom().contains(k) {
                    assert(self.counts@.dom().contains(encode(k)));
                    assert(keys.contains(decode(encode(k))));
                }
                if keys.contains(k) {
                    let c = choose|c: u128| self.counts@.dom().contains(c) && decode(c) == k;
                    assert(self.counts@.contains_key(c));
                    lemma_encode(k, c);
                }
            }
        }
    }

    proof fn lemma_listed(
        counts: &HashMap<u128, u64>,
        listed: Seq<(&u128, &u64)>,
        r: Seq<(AccessKey, u64)>,
    )
        requires
            (AccessCounts { counts: *counts }).wf(),
            listed.no_duplicates(),
            forall|i: int|
                0 <= i < listed.len() ==> counts@.contains_key(*(#[trigger] listed[i]).0)
                    && counts@[*listed[i].0] == *listed[i].1,
            forall|c: u128| #[trigger] counts@.contains_key(c) ==> listed.contains((&c, &counts@[c])),
            r.len() == listed.len(),
            forall|j: int|
                0 <= j < r.len() ==> #[trigger] r[j] == (decode(*listed[j].0), *listed[j].1),
        ensures
            lists(r, (AccessCounts { counts: *counts })@),
    {
        let m = (AccessCounts { counts: *counts })@;
        assert forall|i: int| 0 <= i < r.len() implies m.contains_key((#[trigger] r[i]).0)
            && m[r[i].0] == r[i].1 by {
            lemma_encode(r[i].0, *listed[i].0);
        }
        assert forall|i: int, j: int| 0 <= i < j < r.len() implies (#[trigger] r[i]).0
            != (#[trigger] r[j]).0 by {
            lemma_encode(r[i].0, *listed[i].0);
            lemma_encode(r[j].0, *listed[j].0);
            assert(listed[i] != listed[j]);
            assert(counts@[*listed[i].0] == *listed[i].1);
            assert(counts@[*listed[j].0] == *listed[j].1);
        }
        assert forall|k: AccessKey| #[trigger] m.contains_key(k) implies exists|i: int|
            0 <= i < r.len() && (#[trigger] r[i]).0 == k by {
            let c = encode(k);
            lemma_encode(k, c);
            assert(listed.contains((&c, &counts@[c])));
            let i = choose|i: int| 0 <= i < listed.len() && listed[i] == (&c, &counts@[c]);
            assert(r[i].0 == k);
        }
    }
}

/// The counts after one more access.
pub open spec fn counted(m: Map<AccessKey, u64>, k: AccessKey) -> Map<AccessKey, u64> {
    m.insert(
        k,
        if m.contains_key(k) {
            (m[k] + 1) as u64
        } else {
            1
        },
    )
}

} // verus!
