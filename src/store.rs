//! A fixed number of shards, each key held by the shard its hash routes to.
use vstd::prelude::*;
use crate::command::{apply_effect, is_reply, Command, Response};
use crate::hashing::{route_of, shard_index};
use crate::shard::Shard;

verus! {

/// The whole key space, partitioned into shards by key hash.
pub struct ShardedStore {
    shards: Vec<Shard>,
}

/// `shards` is a well-formed partition: at least one shard, each one
/// well-formed, and each key held by the shard it routes to.
pub open spec fn shards_wf(shards: Seq<Shard>) -> bool {
    &&& shards.len() >= 1
    &&& forall|i: int| 0 <= i < shards.len() ==> (#[trigger] shards[i]).wf()
    &&& forall|i: int, k: Seq<char>|
        0 <= i < shards.len() && #[trigger] shards[i]@.contains_key(k)
            ==> route_of(k, shards.len()) == i
}

/// The mapping that a partition holds: each key as its own shard holds it.
pub open spec fn shards_view(shards: Seq<Shard>) -> Map<Seq<char>, Seq<u8>> {
    Map::new(
        |k: Seq<char>| shards[route_of(k, shards.len()) as int]@.contains_key(k),
        |k: Seq<char>| shards[route_of(k, shards.len()) as int]@[k],
    )
}

impl View for ShardedStore {
    type V = Map<Seq<char>, Seq<u8>>;

    closed spec fn view(&self) -> Map<Seq<char>, Seq<u8>> {
        shards_view(self.shards@)
    }
}

/// A store of `num_shards` empty shards.
pub fn new_sharded_db(num_shards: usize) -> (r: ShardedStore)
    requires
        num_shards >= 1,
    ensures
        is_new_store(r, num_shards as nat),
{
    let mut shards: Vec<Shard> = Vec::new();
    let mut i: usize = 0;
    while i < num_shards
        invariant
            i <= num_shards,
            shards@.len() == i,
            forall|j: int| 0 <= j < i ==> (#[trigger] shards@[j]).wf() && shards@[j]@ == Map::<Seq<char>, Seq<u8>>::empty(),
        decreases num_shards - i,
    {
        shards.push(Shard::new());
        i = i + 1;
    }
    let r = ShardedStore { shards };
    assert(r@ =~= Map::<Seq<char>, Seq<u8>>::empty());
    r
}

impl ShardedStore {
    /// The shards form a well-formed partition of the store's keys.
    pub closed spec fn wf(&self) -> bool {
        shards_wf(self.shards@)
    }

    /// Number of shards.
    pub closed spec fn shard_count_spec(&self) -> nat {
        self.shards@.len()
    }

    /// What the shard at index `j` holds.
    pub closed spec fn shard_contents(&self, j: int) -> Map<Seq<char>, Seq<u8>> {
        self.shards@[j]@
    }

    /// Number of shards, fixed when the store was made.
    pub fn shard_count(&self) -> (r: usize)
        ensures
            r == self.shard_count_spec(),
            self.wf() ==> r >= 1,
    {
        self.shards.len()
    }

    /// Index of the shard that holds `key`.
    pub fn route(&self, key: &str) -> (r: usize)
        requires
            self.wf(),
        ensures
            is_route_result(*self, key@, r),
    {
        shard_index(key, self.shards.len())
    }

    /// A copy of the value stored under `key`, or `None`; reads only the
    /// shard that `key` routes to.
    pub fn get(&self, key: &String) -> (r: Option<Vec<u8>>)
        requires
            self.wf(),
        ensures
            is_get_result(*self, key@, r),
    {
        let i = self.route(key.as_str());
        self.shards[i].get(key)
    }

    /// Stores `value` under `key`, replacing any value held before; writes
    /// only the shard that `key` routes to.
    pub fn set(&mut self, key: String, value: Vec<u8>)
        requires
            old(self).wf(),
        ensures
            is_set_of(*old(self), *final(self), key@, value@),
    {
        let i = self.route(key.as_str());
        let ghost k = key@;
        let ghost v = value@;
        let ghost before = self.shards@;
        self.shards[i].set(key, value);
        assert forall|j: int, q: Seq<char>|
            0 <= j < self.shards@.len() && #[trigger] self.shards@[j]@.contains_key(q)
                implies route_of(q, self.shards@.len()) == j by {
            if j != i && q != k {
                assert(before[j]@.contains_key(q));
            }
        }
        assert(self@ =~= old(self)@.insert(k, v));
    }

    /// Serves one command against the shard its key routes to: `None` for an
    /// unsupported command, which leaves the store as it was.
    pub fn execute(&mut self, cmd: Command) -> (r: Option<Response>)
        requires
            old(self).wf(),
        ensures
            final(self).wf(),
            final(self).shard_count_spec() == old(self).shard_count_spec(),
            final(self)@ == apply_effect(old(self)@, cmd),
            is_reply(old(self)@, cmd, r),
    {
        match cmd {
            Command::Get { key } => match self.get(&key) {
                Some(v) => Some(Response::Bulk(v)),
                None => Some(Response::Null),
            },
            Command::Put { key, value } => {
                self.set(key, value);
                Some(Response::Ack)
            },
            Command::Unsupported => None,
        }
    }

    /// Hands out the shards, in order, so that each can be guarded on its own.
    pub fn into_shards(self) -> (r: Vec<Shard>)
        requires
            self.wf(),
        ensures
            shards_wf(r@),
            r@.len() == self.shard_count_spec(),
            shards_view(r@) == self@,
    {
        self.shards
    }
}

/// `s` is a freshly made store of `shard_count` empty shards.
pub open spec fn is_new_store(s: ShardedStore, shard_count: nat) -> bool {
    &&& s.wf()
    &&& s.shard_count_spec() == shard_count
    &&& s@ == Map::<Seq<char>, Seq<u8>>::empty()
}

/// `r` is the shard index that `s` gives `key`.
pub open spec fn is_route_result(s: ShardedStore, key: Seq<char>, r: usize) -> bool {
    &&& r as nat == route_of(key, s.shard_count_spec())
    &&& r < s.shard_count_spec()
}

/// `r` is what `get(key)` returns on `s`: a copy of the stored value, or
/// `None` where there is none.
pub open spec fn is_get_result(s: ShardedStore, key: Seq<char>, r: Option<Vec<u8>>) -> bool {
    match r {
        Some(v) => s@.contains_key(key) && v@ == s@[key],
        None => !s@.contains_key(key),
    }
}

/// `after` is `before` once `set(key, value)` has run: the value is stored
/// under the key, the shard count is kept, and every shard but the one the
/// key routes to is left as it was.
pub open spec fn is_set_of(before: ShardedStore, after: ShardedStore, key: Seq<char>, value: Seq<u8>) -> bool {
    &&& after.wf()
    &&& after.shard_count_spec() == before.shard_count_spec()
    &&& after@ == before@.insert(key, value)
    &&& forall|j: int|
        0 <= j < before.shard_count_spec() && j != route_of(key, before.shard_count_spec())
            ==> #[trigger] after.shard_contents(j) == before.shard_contents(j)
}

/// Read after write: once `set(k, v)` has run on a store, `get(k)` on it
/// returns `v`.
pub proof fn lemma_read_after_write(
    s0: ShardedStore,
    s1: ShardedStore,
    k: Seq<char>,
    v: Seq<u8>,
    r: Option<Vec<u8>>,
)
    requires
        s0.wf(),
        is_set_of(s0, s1, k, v),
        is_get_result(s1, k, r),
    ensures
        r matches Some(x) && x@ == v,
{
}

/// A key that no `set` has named is absent: on a store made empty and then
/// given the writes `writes` one after another, `get(k)` returns `None`.
pub proof fn lemma_never_set_is_absent(
    stores: Seq<ShardedStore>,
    writes: Seq<(Seq<char>, Seq<u8>)>,
    shard_count: nat,
    k: Seq<char>,
    r: Option<Vec<u8>>,
)
    requires
        stores.len() == writes.len() + 1,
        is_new_store(stores[0], shard_count),
        forall|i: int|
            0 <= i < writes.len() ==> is_set_of(stores[i], stores[i + 1], (#[trigger] writes[i]).0, writes[i].1),
        forall|i: int| 0 <= i < writes.len() ==> (#[trigger] writes[i]).0 != k,
        is_get_result(stores.last(), k, r),
    ensures
        r is None,
{
    lemma_absent_through(stores, writes, shard_count, k, writes.len() as int);
}

proof fn lemma_absent_through(
    stores: Seq<ShardedStore>,
    writes: Seq<(Seq<char>, Seq<u8>)>,
    shard_count: nat,
    k: Seq<char>,
    n: int,
)
    requires
        0 <= n <= writes.len(),
        stores.len() == writes.len() + 1,
        is_new_store(stores[0], shard_count),
        forall|i: int|
            0 <= i < writes.len() ==> is_set_of(stores[i], stores[i + 1], (#[trigger] writes[i]).0, writes[i].1),
        forall|i: int| 0 <= i < writes.len() ==> (#[trigger] writes[i]).0 != k,
    ensures
        !stores[n]@.contains_key(k),
    decreases n,
{
    if n > 0 {
        lemma_absent_through(stores, writes, shard_count, k, n - 1);
        assert(is_set_of(stores[n - 1], stores[n], writes[n - 1].0, writes[n - 1].1));
    }
}

/// Repeating `set(k, v)` with the same `v` changes nothing: `get(k)` returns
/// `v` after the first write and after the second alike.
pub proof fn lemma_set_idempotent(
    s0: ShardedStore,
    s1: ShardedStore,
    s2: ShardedStore,
    k: Seq<char>,
    v: Seq<u8>,
    r1: Option<Vec<u8>>,
    r2: Option<Vec<u8>>,
)
    requires
        s0.wf(),
        is_set_of(s0, s1, k, v),
        is_set_of(s1, s2, k, v),
        is_get_result(s1, k, r1),
        is_get_result(s2, k, r2),
    ensures
        s2@ == s1@,
        r1 matches Some(x) && x@ == v,
        r2 matches Some(y) && y@ == v,
{
    assert(s2@ =~= s1@);
}

/// Two writes of `v1` and `v2` under one key, taken one at a time, leave
/// exactly one of the two values: `get(k)` returns the one written last.
pub proof fn lemma_writes_serialize(
    s0: ShardedStore,
    s1: ShardedStore,
    s2: ShardedStore,
    k: Seq<char>,
    v1: Seq<u8>,
    v2: Seq<u8>,
    r: Option<Vec<u8>>,
)
    requires
        s0.wf(),
        is_set_of(s0, s1, k, v1),
        is_set_of(s1, s2, k, v2),
        is_get_result(s2, k, r),
    ensures
        r matches Some(x) && x@ == v2,
{
}

/// Routing is fixed for the store's lifetime: a key is routed to the same
/// shard before and after a write.
pub proof fn lemma_route_stable(
    s0: ShardedStore,
    s1: ShardedStore,
    wk: Seq<char>,
    wv: Seq<u8>,
    key: Seq<char>,
    r0: usize,
    r1: usize,
)
    requires
        s0.wf(),
        is_set_of(s0, s1, wk, wv),
        is_route_result(s0, key, r0),
        is_route_result(s1, key, r1),
    ensures
        r0 == r1,
{
}

/// Writes to keys that route to different shards touch disjoint shards: the
/// first leaves the second key's shard as it was, and the two may complete in
/// either order with the same outcome.
pub proof fn lemma_distinct_shard_writes_commute(
    s0: ShardedStore,
    a1: ShardedStore,
    a2: ShardedStore,
    b1: ShardedStore,
    b2: ShardedStore,
    k1: Seq<char>,
    v1: Seq<u8>,
    k2: Seq<char>,
    v2: Seq<u8>,
)
    requires
        s0.wf(),
        route_of(k1, s0.shard_count_spec()) != route_of(k2, s0.shard_count_spec()),
        is_set_of(s0, a1, k1, v1),
        is_set_of(a1, a2, k2, v2),
        is_set_of(s0, b1, k2, v2),
        is_set_of(b1, b2, k1, v1),
    ensures
        a1.shard_contents(route_of(k2, s0.shard_count_spec()) as int) == s0.shard_contents(
            route_of(k2, s0.shard_count_spec()) as int,
        ),
        a2@ == b2@,
{
    assert(a2@ =~= b2@);
}

} // verus!
