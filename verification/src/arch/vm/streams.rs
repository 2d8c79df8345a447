//! The inputs and hints of a run.
use std::collections::VecDeque;
use std::sync::Arc;
use vstd::prelude::*;

verus! {

/// A store of hints, from byte strings to byte strings.
pub trait KvStore: Send + Sync {
    /// The value of a key, if it has one.
    spec fn lookup(&self, key: Seq<u8>) -> Option<Seq<u8>>;

    fn get(&self, key: &[u8]) -> (r: Option<&[u8]>)
        ensures
            match r {
                Some(v) => self.lookup(key@) == Some(v@),
                None => self.lookup(key@) is None,
            },
    ;
}

/// A store that keeps its pairs in a list. No key occurs twice.
#[derive(Debug)]
pub struct ByteStore {
    pairs: Vec<(Vec<u8>, Vec<u8>)>,
}

/// The index of the first pair of the key from `i` on.
spec fn find_key(pairs: Seq<(Vec<u8>, Vec<u8>)>, key: Seq<u8>, i: int) -> Option<int>
    decreases pairs.len() - i,
{
    if i < 0 || i >= pairs.len() {
        None
    } else if pairs[i].0@ == key {
        Some(i)
    } else {
        find_key(pairs, key, i + 1)
    }
}

proof fn lemma_find_key(pairs: Seq<(Vec<u8>, Vec<u8>)>, key: Seq<u8>, i: int, k: int)
    requires
        0 <= i <= k <= pairs.len(),
        forall|j: int| i <= j < k ==> (#[trigger] pairs[j]).0@ != key,
    ensures
        k < pairs.len() && pairs[k].0@ == key ==> find_key(pairs, key, i) == Some(k),
        k == pairs.len() ==> find_key(pairs, key, i) is None,
    decreases k - i,
{
    if i < k {
        assert(pairs[i].0@ != key);
        lemma_find_key(pairs, key, i + 1, k);
    }
}

/// Whether two byte strings are equal.
fn bytes_equal(x: &[u8], y: &[u8]) -> (r: bool)
    ensures
        r == (x@ == y@),
{
    if x.len() != y.len() {
        return false;
    }
    for i in 0..x.len()
        invariant
            x@.len() == y@.len(),
            forall|j: int| 0 <= j < i ==> #[trigger] x@[j] == y@[j],
    {
        if x[i] != y[i] {
            return false;
        }
    }
    assert(x@ =~= y@);
    true
}

impl ByteStore {
    /// The index of the pair of the key.
    spec fn index_of(&self, key: Seq<u8>) -> Option<int> {
        find_key(self.pairs@, key, 0)
    }

    pub fn new() -> (r: Self)
        ensures
            forall|key: Seq<u8>| #[trigger] r.lookup(key) is None,
    {
        ByteStore { pairs: Vec::new() }
    }

    fn find(&self, key: &[u8]) -> (r: Option<usize>)
        ensures
            match r {
                Some(i) => i < self.pairs@.len() && self.index_of(key@) == Some(i as int),
                None => self.index_of(key@) is None,
            },
    {
        for i in 0..self.pairs.len()
            invariant
                forall|j: int| 0 <= j < i ==> (#[trigger] self.pairs@[j]).0@ != key@,
        {
            if bytes_equal(self.pairs[i].0.as_slice(), key) {
                proof {
                    lemma_find_key(self.pairs@, key@, 0, i as int);
                }
                return Some(i);
            }
        }
        proof {
            lemma_find_key(self.pairs@, key@, 0, self.pairs@.len() as int);
        }
        None
    }

    /// Sets the value of a key, whether or not it had one.
    pub fn insert(&mut self, key: Vec<u8>, value: Vec<u8>)
        ensures
            final(self).lookup(key@) == Some(value@),
            forall|k: Seq<u8>| #[trigger]
                final(self).lookup(k) == (if k == key@ {
                    Some(value@)
                } else {
                    old(self).lookup(k)
                }),
    {
        let ghost before = self.pairs@;
        let ghost (kv, vv) = (key@, value@);
        match self.find(key.as_slice()) {
            Some(i) => {
                self.pairs[i] = (key, value);
                proof {
                    lemma_find_range(before, kv, 0);
                }
                assert forall|k: Seq<u8>| #[trigger] self.lookup(k) == (if k == kv {
                    Some(vv)
                } else {
                    old(self).lookup(k)
                }) by {
                    lemma_same_keys(before, self.pairs@, k, 0);
                }
            },
            None => {
                self.pairs.push((key, value));
                assert forall|k: Seq<u8>| #[trigger] self.lookup(k) == (if k == kv {
                    Some(vv)
                } else {
                    old(self).lookup(k)
                }) by {
                    lemma_push_key(before, self.pairs@.last(), k, 0);
                    assert(self.pairs@ =~= before.push(self.pairs@.last()));
                }
            },
        }
    }
}

proof fn lemma_find_range(pairs: Seq<(Vec<u8>, Vec<u8>)>, key: Seq<u8>, i: int)
    requires
        0 <= i,
    ensures
        find_key(pairs, key, i) matches Some(k) ==> i <= k < pairs.len() && pairs[k].0@ == key,
    decreases pairs.len() - i,
{
    if i < pairs.len() && pairs[i].0@ != key {
        lemma_find_range(pairs, key, i + 1);
    }
}

/// Pairs with the same keys are found at the same places.
proof fn lemma_same_keys(
    s: Seq<(Vec<u8>, Vec<u8>)>,
    t: Seq<(Vec<u8>, Vec<u8>)>,
    key: Seq<u8>,
    i: int,
)
    requires
        0 <= i,
        s.len() == t.len(),
        forall|j: int| 0 <= j < s.len() ==> (#[trigger] s[j]).0@ == (#[trigger] t[j]).0@,
    ensures
        find_key(s, key, i) == find_key(t, key, i),
        find_key(t, key, i) matches Some(k) ==> i <= k < t.len() && t[k].0@ == key,
    decreases s.len() - i,
{
    lemma_find_range(t, key, i);
    if i < s.len() {
        assert(s[i].0@ == t[i].0@);
        lemma_same_keys(s, t, key, i + 1);
    }
}

/// A new pair at the end is found only for its own key.
proof fn lemma_push_key(
    s: Seq<(Vec<u8>, Vec<u8>)>,
    pair: (Vec<u8>, Vec<u8>),
    key: Seq<u8>,
    i: int,
)
    requires
        0 <= i <= s.len(),
    ensures
        find_key(s, key, i) is Some ==> find_key(s.push(pair), key, i) == find_key(s, key, i),
        find_key(s, key, i) is None ==> find_key(s.push(pair), key, i) == (if pair.0@ == key {
            Some(s.len() as int)
        } else {
            None
        }),
        find_key(s, key, i) matches Some(k) ==> i <= k < s.len() && s[k].0@ == key,
    decreases s.len() - i,
{
    lemma_find_range(s, key, i);
    if i < s.len() {
        lemma_push_key(s, pair, key, i + 1);
    } else {
        assert(find_key(s.push(pair), key, i + 1) is None);
    }
}

impl KvStore for ByteStore {
    closed spec fn lookup(&self, key: Seq<u8>) -> Option<Seq<u8>> {
        match self.index_of(key) {
            Some(i) => Some(self.pairs@[i].1@),
            None => None,
        }
    }

    fn get(&self, key: &[u8]) -> (r: Option<&[u8]>) {
        match self.find(key) {
            Some(i) => Some(self.pairs[i].1.as_slice()),
            None => None,
        }
    }
}

/// The inputs and hints of a run.
#[derive(Clone)]
pub struct Streams<F> {
    pub input_stream: VecDeque<Vec<F>>,
    pub hint_stream: VecDeque<F>,
    pub hint_space: Vec<Vec<F>>,
    /// The store of hints. Executors that read it encode the key and decode the value.
    pub kv_store: Arc<Box<dyn KvStore>>,
}

impl<F> Streams<F> {
    /// There are no hints.
    pub open spec fn without_hints(&self) -> bool {
        &&& self.hint_stream@ == Seq::<F>::empty()
        &&& self.hint_space@ == Seq::<Vec<F>>::empty()
        &&& forall|key: Seq<u8>| #[trigger] self.kv_store.lookup(key) is None
    }

    pub fn new(input_stream: VecDeque<Vec<F>>) -> (r: Self)
        ensures
            r.input_stream@ == input_stream@,
            r.without_hints(),
    {
        let store = ByteStore::new();
        let kv: Box<dyn KvStore> = Box::new(store);
        let kv_store = Arc::new(kv);
        assert(*kv_store == kv);
        let r = Streams {
            input_stream,
            hint_stream: VecDeque::new(),
            hint_space: Vec::new(),
            kv_store,
        };
        assert forall|key: Seq<u8>| #[trigger] r.kv_store.lookup(key) is None by {
            assert(store.lookup(key) is None);
        }
        r
    }
}

impl<F> Default for Streams<F> {
    fn default() -> (r: Self)
        ensures
            r.input_stream@ == Seq::<Vec<F>>::empty(),
            r.without_hints(),
    {
        Self::new(VecDeque::new())
    }
}

impl<F> vstd::std_specs::convert::FromSpecImpl<VecDeque<Vec<F>>> for Streams<F> {
    open spec fn obeys_from_spec() -> bool {
        false
    }

    open spec fn from_spec(value: VecDeque<Vec<F>>) -> Self {
        arbitrary()
    }
}

impl<F> From<VecDeque<Vec<F>>> for Streams<F> {
    fn from(value: VecDeque<Vec<F>>) -> (r: Self)
        ensures
            r.input_stream@ == value@,
            r.without_hints(),
    {
        Streams::new(value)
    }
}

impl<F> vstd::std_specs::convert::FromSpecImpl<Vec<Vec<F>>> for Streams<F> {
    open spec fn obeys_from_spec() -> bool {
        false
    }

    open spec fn from_spec(value: Vec<Vec<F>>) -> Self {
        arbitrary()
    }
}

impl<F> From<Vec<Vec<F>>> for Streams<F> {
    fn from(value: Vec<Vec<F>>) -> (r: Self)
        ensures
            r.input_stream@ == value@,
            r.without_hints(),
    {
        let ghost all = value@;
        let mut stack = value;
        let mut stream: VecDeque<Vec<F>> = VecDeque::new();
        while stack.len() > 0
            invariant
                stack@ + stream@ == all,
            decreases stack@.len(),
        {
            let ghost (s, t) = (stack@, stream@);
            match stack.pop() {
                Some(x) => {
                    stream.push_front(x);
                    assert(s =~= stack@.push(x));
                    assert(stream@ =~= seq![x] + t);
                    assert(stack@ + stream@ =~= s + t);
                },
                None => {},
            }
        }
        assert(stream@ =~= all);
        Streams::new(stream)
    }
}

} // verus!
