//! The in-memory cache engine.
//!
//! Entries live in a concurrent map keyed by text. Each entry may carry an
//! expiry, a reading of the engine's clock (nanoseconds since the engine was
//! created) from which on it counts as absent. Expired entries are purged
//! lazily, by a sweep over the whole store at the start of every `get` and
//! `contains_key`. When a capacity is set, a `set` of a new key into a full
//! store first evicts the entry that the eviction policy ranks lowest.
//!
//! Every change to the store goes together with the matching change to the
//! policy's per-key scores, so that the policy tracks exactly the stored
//! keys (see `inv`), and `clear` resets the policy and the size counters
//! along with the store.
use crate::backends::{CacheBackend, Key, Value};
use crate::clock::{capped_nanos, nanos_of, nanos_since};
use crate::eviction::{
    create_policy, key_views, lowest_first, ActivePolicy, EvictionPolicy, LruPolicy, PolicyView,
};
use crate::metrics::{Metrics, MetricsView};
use crate::sharded::{
    lists_expiries, store_clear, store_contains, store_contents, store_expiries, store_get,
    store_insert, store_len, store_new, store_remove, StoredEntry,
};
use dashmap::DashMap;
use std::time::{Duration, Instant};
use vstd::prelude::*;

verus! {

/// Configuration options for the memory backend.
#[derive(Debug, Clone)]
pub struct MemoryBackendConfig {
    /// Maximum number of items in the cache (0 = unlimited).
    pub max_capacity: usize,
    /// Eviction policy name ("lru", "lfu"); any other name selects LRU.
    pub eviction_policy: String,
}

impl Default for MemoryBackendConfig {
    fn default() -> (r: Self)
        ensures
            r.max_capacity == 0,
            r.eviction_policy@ == "lru"@,
    {
        MemoryBackendConfig { max_capacity: 0, eviction_policy: "lru".to_owned() }
    }
}

/// Whether an entry still counts as present at clock reading `now`.
pub open spec fn live(e: (Seq<u8>, Option<u64>), now: u64) -> bool {
    match e.1 {
        Some(t) => now < t,
        None => true,
    }
}

/// The expiry of an entry stored at `now` with a time-to-live of `ttl`
/// nanoseconds; an expiry past the end of the clock's range never comes.
pub open spec fn expiry(now: u64, ttl: Option<u64>) -> Option<u64> {
    match ttl {
        Some(d) => if now + d <= u64::MAX { Some((now + d) as u64) } else { None },
        None => None,
    }
}

/// What a read of `key` at `now` finds in `store`.
pub open spec fn lookup(store: Map<Seq<char>, (Seq<u8>, Option<u64>)>, key: Seq<char>, now: u64) -> Option<Seq<u8>> {
    if store.contains_key(key) && live(store[key], now) {
        Some(store[key].0)
    } else {
        None
    }
}

/// The bytes of an optional value.
pub open spec fn bytes_of(r: Option<Vec<u8>>) -> Option<Seq<u8>> {
    match r {
        Some(v) => Some(v@),
        None => None,
    }
}

/// The size counted for a stored value: its encoded length, an 8-byte
/// length prefix followed by the bytes.
pub open spec fn entry_size(v: Seq<u8>) -> usize {
    ((v.len() + 8) as u64) as usize
}

/// `a + n`, held at `u64::MAX`.
pub open spec fn add_count(a: u64, n: nat) -> u64 {
    if a + n > u64::MAX { u64::MAX } else { (a + n) as u64 }
}

/// `a - n`, held at zero.
pub open spec fn sub_count(a: usize, n: nat) -> usize {
    if a < n { 0 } else { (a - n) as usize }
}

/// Adds the counted size of `k`'s entry in `store` to a running total.
pub open spec fn size_step(store: Map<Seq<char>, (Seq<u8>, Option<u64>)>) -> spec_fn(nat, Seq<char>) -> nat {
    |acc: nat, k: Seq<char>| (acc + entry_size(store[k].0)) as nat
}

/// The total counted size of the entries of `keys` in `store`.
pub open spec fn size_sum(store: Map<Seq<char>, (Seq<u8>, Option<u64>)>, keys: Set<Seq<char>>) -> nat {
    keys.fold(0nat, size_step(store))
}

/// No key counts for nothing.
proof fn lemma_size_sum_empty(store: Map<Seq<char>, (Seq<u8>, Option<u64>)>)
    ensures
        size_sum(store, Set::empty()) == 0,
{
    vstd::set::fold::lemma_fold_empty(0nat, size_step(store));
}

/// One more key adds its entry's size.
proof fn lemma_size_sum_insert(store: Map<Seq<char>, (Seq<u8>, Option<u64>)>, keys: Set<Seq<char>>, k: Seq<char>)
    requires
        keys.finite(),
        !keys.contains(k),
    ensures
        size_sum(store, keys.insert(k)) == size_sum(store, keys) + entry_size(store[k].0),
{
    let f = size_step(store);
    assert(vstd::set::fold::is_fun_commutative(f)) by {
        assert forall|a1: Seq<char>, a2: Seq<char>, b: nat| #[trigger] f(f(b, a2), a1) == f(f(b, a1), a2) by {}
    }
    vstd::set::fold::lemma_fold_insert(keys, 0nat, f, k);
}

/// What a memory backend holds: its entries, its policy's state, its
/// counters and its configuration.
pub struct MemoryBackendView {
    pub store: Map<Seq<char>, (Seq<u8>, Option<u64>)>,
    pub policy: PolicyView,
    pub metrics: MetricsView,
    pub max_capacity: usize,
    pub policy_name: Seq<char>,
}

impl MemoryBackendView {
    /// The entries still present at `now`.
    pub open spec fn live_store(self, now: u64) -> Map<Seq<char>, (Seq<u8>, Option<u64>)> {
        self.store.restrict(self.store.dom().filter(|k: Seq<char>| live(self.store[k], now)))
    }

    /// The state after the expired entries are swept out at `now`: each one
    /// leaves the store and the policy, counts as an eviction, and no longer
    /// counts toward the entries and bytes held.
    pub open spec fn purged(self, now: u64) -> MemoryBackendView {
        let store = self.live_store(now);
        MemoryBackendView {
            store,
            policy: PolicyView { scores: self.policy.scores.restrict(store.dom()), ..self.policy },
            metrics: MetricsView {
                evictions: add_count(self.metrics.evictions, (self.store.len() - store.len()) as nat),
                entry_count: sub_count(self.metrics.entry_count, (self.store.len() - store.len()) as nat),
                total_bytes: sub_count(self.metrics.total_bytes, size_sum(self.store, self.store.dom().difference(store.dom()))),
                ..self.metrics
            },
            ..self
        }
    }

    /// The state after a read of `key` at `now`: the sweep, then a hit that
    /// counts as an access, or a miss.
    pub open spec fn after_get(self, key: Seq<char>, now: u64) -> MemoryBackendView {
        let p = self.purged(now);
        if p.store.contains_key(key) {
            MemoryBackendView { policy: p.policy.accessed(key), metrics: p.metrics.hit(), ..p }
        } else {
            MemoryBackendView { metrics: p.metrics.miss(), ..p }
        }
    }

    /// The state after `key` is removed; nothing changes if it is absent.
    pub open spec fn after_remove(self, key: Seq<char>) -> MemoryBackendView {
        if self.store.contains_key(key) {
            MemoryBackendView {
                store: self.store.remove(key),
                policy: self.policy.removed(key),
                metrics: self.metrics.shrunk(entry_size(self.store[key].0)),
                ..self
            }
        } else {
            self
        }
    }

    /// Whether a `set` of `key` needs no eviction: no capacity is set, or
    /// the key is new and the store has room, or the key is already stored
    /// and the store is within capacity.
    pub open spec fn has_room(self, key: Seq<char>) -> bool {
        ||| self.max_capacity == 0
        ||| self.store.len() < self.max_capacity
        ||| (self.store.contains_key(key) && self.store.len() <= self.max_capacity)
    }

    /// Whether a `set` of `key` finds the store exactly full with a new key.
    pub open spec fn is_full_for(self, key: Seq<char>) -> bool {
        &&& !self.store.contains_key(key)
        &&& self.max_capacity > 0
        &&& self.store.len() == self.max_capacity
    }

    /// The state after `key` is stored with `value` and expiry `exp`.
    pub open spec fn stored(self, key: Seq<char>, value: Seq<u8>, exp: Option<u64>) -> MemoryBackendView {
        let old_size = if self.store.contains_key(key) { entry_size(self.store[key].0) } else { 0 };
        MemoryBackendView {
            store: self.store.insert(key, (value, exp)),
            policy: self.policy.inserted(key),
            metrics: self.metrics.sized(old_size, entry_size(value)).inserted(),
            ..self
        }
    }

    /// `after` is a possible state after `key` is set to `value` at `now`
    /// with a time-to-live of `ttl` nanoseconds: the store stays within
    /// capacity, keeps no other key that was not there and changes no other
    /// entry; the key, if kept, holds the new entry; with room the write is
    /// a plain store, and a new key that finds the store full displaces one
    /// lowest-ranked entry.
    pub open spec fn set_outcome(self, after: MemoryBackendView, key: Seq<char>, value: Seq<u8>, ttl: Option<u64>, now: u64) -> bool {
        &&& after.max_capacity == self.max_capacity
        &&& after.policy_name == self.policy_name
        &&& after.max_capacity > 0 ==> after.store.len() <= after.max_capacity
        &&& forall|k: Seq<char>| #[trigger] after.store.contains_key(k) && k != key
                ==> self.store.contains_key(k) && after.store[k] == self.store[k]
        &&& after.store.contains_key(key) ==> after.store[key] == (value, expiry(now, ttl))
        &&& self.has_room(key) ==> after == self.stored(key, value, expiry(now, ttl))
        &&& self.is_full_for(key) ==> exists|victim: Seq<char>|
                lowest_first(self.policy.scores, seq![victim], 1)
                && after == #[trigger] self.displaced(victim).stored(key, value, expiry(now, ttl))
        &&& self.over_capacity() ==> exists|mid: MemoryBackendView, picked: Seq<Seq<char>>|
                #[trigger] mid.trimmed(after, picked) && (
                    (self.store.contains_key(key) && mid == self.stored(key, value, expiry(now, ttl)))
                    || (!self.store.contains_key(key) && exists|victim: Seq<char>|
                        lowest_first(self.policy.scores, seq![victim], 1)
                        && mid == #[trigger] self.displaced(victim).stored(key, value, expiry(now, ttl))))
    }

    /// Whether a capacity is set and the store holds more entries than it.
    pub open spec fn over_capacity(self) -> bool {
        self.max_capacity > 0 && self.store.len() > self.max_capacity
    }

    /// `after` is this state once the excess over capacity was evicted: the
    /// policy ranked `picked` lowest, and they leave the store and the
    /// policy, each counted as one eviction and no longer counted toward the
    /// entries and bytes held.
    pub open spec fn trimmed(self, after: MemoryBackendView, picked: Seq<Seq<char>>) -> bool {
        &&& lowest_first(self.policy.scores, picked, (self.store.len() - self.max_capacity) as nat)
        &&& after == MemoryBackendView {
            store: self.store.remove_keys(picked.to_set()),
            policy: PolicyView { scores: self.policy.scores.remove_keys(picked.to_set()), ..self.policy },
            metrics: MetricsView {
                evictions: add_count(self.metrics.evictions, picked.len()),
                entry_count: sub_count(self.metrics.entry_count, picked.len()),
                total_bytes: sub_count(self.metrics.total_bytes, size_sum(self.store, picked.to_set())),
                ..self.metrics
            },
            ..self
        }
    }

    /// The state after the entry of `victim` is evicted to make room.
    pub open spec fn displaced(self, victim: Seq<char>) -> MemoryBackendView {
        MemoryBackendView {
            store: self.store.remove(victim),
            policy: self.policy.removed(victim),
            metrics: self.metrics.shrunk(entry_size(self.store[victim].0)).evicted(),
            ..self
        }
    }

    /// This state with one more write latency, of `n` nanoseconds, counted.
    pub open spec fn timed(self, n: u64) -> MemoryBackendView {
        MemoryBackendView {
            metrics: MetricsView { set_latency: self.metrics.set_latency.with_sample(n), ..self.metrics },
            ..self
        }
    }

    /// This state with one more read latency, of `n` nanoseconds, counted.
    pub open spec fn timed_read(self, n: u64) -> MemoryBackendView {
        MemoryBackendView {
            metrics: MetricsView { get_latency: self.metrics.get_latency.with_sample(n), ..self.metrics },
            ..self
        }
    }

    /// The state after everything is cleared.
    pub open spec fn after_clear(self) -> MemoryBackendView {
        MemoryBackendView {
            store: Map::empty(),
            policy: self.policy.cleared(),
            metrics: self.metrics.emptied(),
            ..self
        }
    }
}

/// Relies on `bincode::serialized_size`: with bincode's default fixed-width
/// integers a byte vector encodes as an 8-byte length and then its bytes, and
/// with no size limit the count does not fail.
#[verifier::external_body]
fn encoded_len(v: &Vec<u8>) -> (r: Option<u64>)
    ensures
        r == Some((v@.len() + 8) as u64),
{
    bincode::serialized_size(v).ok()
}

/// The size counted for a stored value.
fn size_of_value(v: &Vec<u8>) -> (r: usize)
    ensures
        r == entry_size(v@),
{
    match encoded_len(v) {
        Some(n) => #[verifier::truncate] (n as usize),
        None => 0,
    }
}

/// An in-memory cache backend: a concurrent map of entries with optional
/// time-to-live, an optional capacity enforced by an eviction policy, and
/// metrics.
#[derive(Debug)]
pub struct MemoryBackend {
    store: DashMap<Key, StoredEntry>,
    metrics: Metrics,
    config: MemoryBackendConfig,
    eviction_policy: ActivePolicy,
    origin: Instant,
}

impl View for MemoryBackend {
    type V = MemoryBackendView;

    closed spec fn view(&self) -> MemoryBackendView {
        MemoryBackendView {
            store: store_contents(self.store),
            policy: self.eviction_policy@,
            metrics: self.metrics@,
            max_capacity: self.config.max_capacity,
            policy_name: self.config.eviction_policy@,
        }
    }
}

impl Default for MemoryBackend {
    /// The same as [`MemoryBackend::new`].
    fn default() -> (r: Self)
        ensures
            r.inv(),
            r@.store.is_empty(),
            r@.max_capacity == 0,
            !r@.policy.lfu,
            r@.metrics == MetricsView::zero(),
    {
        Self::new()
    }
}

impl MemoryBackend {
    /// The policy tracks exactly the stored keys.
    pub open spec fn inv(&self) -> bool {
        &&& self@.store.dom().finite()
        &&& self@.policy.scores.dom() == self@.store.dom()
    }

    /// Creates a new `MemoryBackend` with unlimited capacity and LRU eviction.
    pub fn new() -> (r: Self)
        ensures
            r.inv(),
            r@.store.is_empty(),
            r@.max_capacity == 0,
            !r@.policy.lfu,
            r@.metrics == MetricsView::zero(),
    {
        let r = MemoryBackend {
            store: store_new(),
            metrics: Metrics::new(),
            config: MemoryBackendConfig::default(),
            eviction_policy: ActivePolicy::Lru(LruPolicy::new()),
            origin: Instant::now(),
        };
        assert(r@.store =~= Map::empty());
        r
    }

    /// Returns a reference to the metrics instance.
    pub fn metrics(&self) -> (r: &Metrics)
        ensures
            r@ == self@.metrics,
    {
        &self.metrics
    }

    /// Creates a new `MemoryBackend` with the given configuration.
    pub fn with_config(config: MemoryBackendConfig) -> (r: Self)
        ensures
            r.inv(),
            r@.store.is_empty(),
            r@.max_capacity == config.max_capacity,
            r@.policy_name == config.eviction_policy@,
            r@.policy == (PolicyView { lfu: crate::eviction::lowercase_of(config.eviction_policy@) == "lfu"@, scores: Map::empty(), clock: 0 }),
            r@.metrics == MetricsView::zero(),
    {
        let eviction_policy = create_policy(config.eviction_policy.as_str());
        let r = MemoryBackend {
            store: store_new(),
            metrics: Metrics::new(),
            config,
            eviction_policy,
            origin: Instant::now(),
        };
        assert(r@.store =~= Map::empty());
        r
    }

    /// Sets the maximum capacity of the cache (0 = unlimited).
    pub fn with_capacity(self, max_capacity: usize) -> (r: Self)
        ensures
            r@ == (MemoryBackendView { max_capacity, ..self@ }),
    {
        let mut s = self;
        s.config.max_capacity = max_capacity;
        s
    }

    /// Replaces the eviction policy by a fresh one chosen by name; the keys
    /// already stored enter it as if just inserted, in the store's order.
    pub fn with_eviction_policy(self, policy_name: &str) -> (r: Self)
        requires
            self.inv(),
        ensures
            r.inv(),
            r@.store == self@.store,
            r@.metrics == self@.metrics,
            r@.max_capacity == self@.max_capacity,
            r@.policy_name == policy_name@,
            r@.policy.lfu == (crate::eviction::lowercase_of(policy_name@) == "lfu"@),
    {
        let mut s = self;
        s.config.eviction_policy = policy_name.to_owned();
        let mut policy = create_policy(policy_name);
        let keys = store_expiries(&s.store);
        let empty: Vec<u8> = Vec::new();
        let mut i: usize = 0;
        while i < keys.len()
            invariant
                lists_expiries(keys@, store_contents(s.store)),
                0 <= i <= keys@.len(),
                policy@.lfu == (crate::eviction::lowercase_of(policy_name@) == "lfu"@),
                forall|k: Seq<char>| #[trigger] policy@.scores.contains_key(k) <==> exists|j: int| 0 <= j < i && keys@[j].0@ == k,
            decreases keys@.len() - i,
        {
            let ghost before = policy@.scores;
            policy.on_insert(&keys[i].0, &empty);
            proof {
                assert forall|k: Seq<char>| #[trigger] policy@.scores.contains_key(k) <==> exists|j: int| 0 <= j < i + 1 && keys@[j].0@ == k by {
                    if k == keys@[i as int].0@ {
                        assert(keys@[i as int].0@ == k);
                    } else if before.contains_key(k) {
                        let j = choose|j: int| 0 <= j < i && keys@[j].0@ == k;
                        assert(keys@[j].0@ == k);
                    }
                }
            }
            i += 1;
        }
        s.eviction_policy = policy;
        proof {
            assert forall|k: Seq<char>| s@.policy.scores.contains_key(k) <==> s@.store.contains_key(k) by {
                if s@.store.contains_key(k) {
                    let j = choose|j: int| 0 <= j < keys@.len() && keys@[j].0@ == k;
                    assert(keys@[j].0@ == k);
                }
            }
            assert(s@.policy.scores.dom() =~= s@.store.dom());
        }
        s
    }

    /// Returns the current number of items in the cache, including expired
    /// items that no sweep has removed yet.
    pub fn get_store_len(&self) -> (r: usize)
        ensures
            r == self@.store.len(),
    {
        store_len(&self.store)
    }

    /// Reads `key` at clock reading `now`: sweeps out the expired entries,
    /// then returns the key's value, counting a hit and an access, or counts
    /// a miss.
    pub fn get_at(&mut self, key: &Key, now: u64) -> (r: Option<Value>)
        requires
            old(self).inv(),
        ensures
            final(self).inv(),
            bytes_of(r) == lookup(old(self)@.store, key@, now),
            final(self)@ == old(self)@.after_get(key@, now),
            old(self)@.metrics.hits < u64::MAX && old(self)@.metrics.misses < u64::MAX ==> {
                &&& final(self)@.metrics.hits + final(self)@.metrics.misses
                    == old(self)@.metrics.hits + old(self)@.metrics.misses + 1
                &&& (r is Some <==> final(self)@.metrics.hits == old(self)@.metrics.hits + 1)
            },
    {
        self.cleanup_expired(now);
        let ghost p = self@;
        match store_get(&self.store, key) {
            Some(e) => {
                EvictionPolicy::<String, Vec<u8>>::on_access(&mut self.eviction_policy, key);
                self.metrics.record_hit();
                assert(self@.policy.scores.dom() =~= p.policy.scores.dom());
                Some(e.0)
            },
            None => {
                self.metrics.record_miss();
                None
            },
        }
    }

    /// Whether `key` holds a value at clock reading `now`, after the sweep
    /// of expired entries; neither a hit nor a miss nor an access.
    pub fn contains_key_at(&mut self, key: &Key, now: u64) -> (r: bool)
        requires
            old(self).inv(),
        ensures
            final(self).inv(),
            r == lookup(old(self)@.store, key@, now).is_some(),
            final(self)@ == old(self)@.purged(now),
    {
        self.cleanup_expired(now);
        store_contains(&self.store, key)
    }

    /// Evicts as many entries as the store holds beyond its capacity, the
    /// ones the policy ranks lowest.
    fn enforce_capacity_limit(&mut self)
        requires
            old(self).inv(),
        ensures
            final(self).inv(),
            final(self)@.max_capacity == old(self)@.max_capacity,
            final(self)@.policy_name == old(self)@.policy_name,
            final(self)@.max_capacity > 0 ==> final(self)@.store.len() <= final(self)@.max_capacity,
            forall|k: Seq<char>| #[trigger] final(self)@.store.contains_key(k)
                ==> old(self)@.store.contains_key(k) && final(self)@.store[k] == old(self)@.store[k],
            old(self)@.max_capacity == 0 || old(self)@.store.len() <= old(self)@.max_capacity
                ==> final(self)@ == old(self)@,
            old(self)@.over_capacity() ==> exists|picked: Seq<Seq<char>>| #[trigger] old(self)@.trimmed(final(self)@, picked),
    {
        let len = store_len(&self.store);
        if self.config.max_capacity == 0 || len <= self.config.max_capacity {
            return;
        }
        let ghost start = self@;
        let to_evict = len - self.config.max_capacity;
        let result = EvictionPolicy::<String, Vec<u8>>::evict(&mut self.eviction_policy, to_evict);
        let ghost picked = key_views(result.keys_to_evict@);
        let ghost mut gone: Set<Seq<char>> = Set::empty();
        proof {
            lemma_size_sum_empty(start.store);
            assert(gone =~= start.store.dom().difference(self@.store.dom()));
        }
        let mut i: usize = 0;
        while i < result.keys_to_evict.len()
            invariant
                0 <= i <= result.keys_to_evict@.len(),
                picked == key_views(result.keys_to_evict@),
                picked.len() == to_evict,
                picked.no_duplicates(),
                forall|j: int| 0 <= j < picked.len() ==> #[trigger] start.store.contains_key(picked[j]),
                start.store.dom().finite(),
                self@.store.dom().finite(),
                forall|k: Seq<char>| #[trigger] self@.store.contains_key(k) <==> start.store.contains_key(k)
                    && !(exists|j: int| 0 <= j < i && picked[j] == k),
                forall|k: Seq<char>| #[trigger] self@.store.contains_key(k) ==> self@.store[k] == start.store[k],
                self@.store.len() == start.store.len() - i,
                self@.policy == (PolicyView { scores: start.policy.scores.remove_keys(picked.to_set()), ..start.policy }),
                gone.finite(),
                gone == start.store.dom().difference(self@.store.dom()),
                self@.metrics == (MetricsView {
                    evictions: add_count(start.metrics.evictions, i as nat),
                    entry_count: sub_count(start.metrics.entry_count, i as nat),
                    total_bytes: sub_count(start.metrics.total_bytes, size_sum(start.store, gone)),
                    ..start.metrics
                }),
                lowest_first(start.policy.scores, picked, to_evict as nat),
                self@.max_capacity == start.max_capacity,
                self@.policy_name == start.policy_name,
            decreases result.keys_to_evict@.len() - i,
        {
            let ghost before = self@.store;
            let removed = store_remove(&mut self.store, &result.keys_to_evict[i]);
            if let Some(e) = removed {
                self.metrics.record_entry_removal(size_of_value(&e.0));
            }
            self.metrics.record_eviction();
            proof {
                let k = picked[i as int];
                assert(result.keys_to_evict@[i as int]@ == k);
                assert(before.contains_key(k) && before[k] == start.store[k]);
                lemma_size_sum_insert(start.store, gone, k);
                gone = gone.insert(k);
                assert(gone =~= start.store.dom().difference(self@.store.dom()));
                assert(result.keys_to_evict@[i as int]@ == k);
                assert(!(exists|j: int| 0 <= j < i && picked[j] == k)) by {
                    if exists|j: int| 0 <= j < i && picked[j] == k {
                        let j = choose|j: int| 0 <= j < i && picked[j] == k;
                        assert(picked[j] == picked[i as int]);
                    }
                }
                assert(start.store.contains_key(k));
                assert(before.contains_key(k));
                assert forall|k2: Seq<char>| #[trigger] self@.store.contains_key(k2) <==> start.store.contains_key(k2)
                    && !(exists|j: int| 0 <= j < i + 1 && picked[j] == k2) by {
                    if k2 != k && (exists|j: int| 0 <= j < i + 1 && picked[j] == k2) {
                        let j = choose|j: int| 0 <= j < i + 1 && picked[j] == k2;
                        assert(j < i);
                    }
                }
            }
            i += 1;
        }
        proof {
            assert forall|k: Seq<char>| #[trigger] self@.store.contains_key(k) <==> start.store.contains_key(k)
                && !picked.to_set().contains(k) by {
                if picked.contains(k) {
                    let j = choose|j: int| 0 <= j < picked.len() && picked[j] == k;
                    assert(picked[j] == k);
                }
            }
            assert(self@.store =~= start.store.remove_keys(picked.to_set()));
            assert(self@.policy.scores.dom() =~= self@.store.dom());
            assert(gone =~= picked.to_set());
            assert(start.trimmed(self@, picked));
        }
    }

    /// Stores `value` under `key` at clock reading `now`, to expire `ttl`
    /// nanoseconds later when `ttl` is given. A new key that finds the store
    /// full first displaces the entry the policy ranks lowest; afterwards the
    /// store is brought within capacity.
    pub fn set_at(&mut self, key: Key, value: Value, ttl: Option<u64>, now: u64)
        requires
            old(self).inv(),
        ensures
            final(self).inv(),
            old(self)@.set_outcome(final(self)@, key@, value@, ttl, now),
    {
        let ghost start = self@;
        let new_size = size_of_value(&value);
        let existing = store_get(&self.store, &key);
        let old_size = match &existing {
            Some(e) => size_of_value(&e.0),
            None => 0,
        };
        let ghost mut victim: Seq<char> = Seq::empty();
        if existing.is_none() && self.config.max_capacity > 0 && store_len(&self.store) >= self.config.max_capacity {
            let result = EvictionPolicy::<String, Vec<u8>>::evict(&mut self.eviction_policy, 1);
            proof {
                assert(start.store.len() > 0);
                assert(result.keys_to_evict@.len() == 1);
            }
            let k = &result.keys_to_evict[0];
            proof {
                victim = k@;
                assert(key_views(result.keys_to_evict@) =~= seq![victim]);
                assert(key_views(result.keys_to_evict@)[0] == victim);
                assert(start.policy.scores.contains_key(victim));
                assert(start.store.contains_key(victim));
            }
            let removed = store_remove(&mut self.store, k);
            if let Some(e) = removed {
                self.metrics.record_entry_removal(size_of_value(&e.0));
            }
            self.metrics.record_eviction();
            proof {
                assert forall|x: Seq<char>| seq![victim].to_set().contains(x) <==> x == victim by {
                    if x == victim {
                        assert(seq![victim][0] == x);
                    }
                }
                assert(seq![victim].to_set() =~= set![victim]);
                assert(self@.policy.scores =~= start.policy.scores.remove(victim));
                assert(self@ == start.displaced(victim));
            }
        }
        let ghost mid = self@;
        let expires_at = match ttl {
            Some(d) => if d <= u64::MAX - now { Some(now + d) } else { None },
            None => None,
        };
        self.metrics.record_entry_size(old_size, new_size);
        EvictionPolicy::<String, Vec<u8>>::on_insert(&mut self.eviction_policy, &key, &value);
        store_insert(&mut self.store, key, (value, expires_at));
        self.metrics.record_insertion();
        proof {
            assert(self@.policy.scores.dom() =~= self@.store.dom());
            assert(self@ == mid.stored(key@, value@, expiry(now, ttl)));
        }
        let ghost stored_state = self@;
        if self.config.max_capacity > 0 && store_len(&self.store) > self.config.max_capacity {
            self.enforce_capacity_limit();
        }
        proof {
            if start.over_capacity() {
                if start.store.contains_key(key@) {
                    assert(stored_state == start.stored(key@, value@, expiry(now, ttl)));
                    assert(stored_state.store.len() == start.store.len());
                } else {
                    assert(stored_state == start.displaced(victim).stored(key@, value@, expiry(now, ttl)));
                    assert(start.displaced(victim).store.len() == start.store.len() - 1);
                    assert(stored_state.store.len() == start.store.len());
                }
                assert(stored_state.over_capacity());
                let picked = choose|picked: Seq<Seq<char>>| #[trigger] stored_state.trimmed(self@, picked);
                assert(stored_state.trimmed(self@, picked));
            }
            if start.is_full_for(key@) {
                assert(self@ == start.displaced(victim).stored(key@, value@, expiry(now, ttl)));
            }
        }
    }

    /// The engine's clock: nanoseconds since the engine was created.
    fn now(&self) -> u64 {
        nanos_since(&self.origin)
    }

    /// Sweeps out every entry that has expired at `now`, from the store and
    /// from the policy, counting each as an eviction.
    fn cleanup_expired(&mut self, now: u64)
        requires
            old(self).inv(),
        ensures
            final(self).inv(),
            final(self)@ == old(self)@.purged(now),
    {
        let ghost start = self@;
        let expiries = store_expiries(&self.store);
        let ghost mut done: Set<Seq<char>> = Set::empty();
        let ghost mut gone: Set<Seq<char>> = Set::empty();
        let mut i: usize = 0;
        proof {
            lemma_size_sum_empty(start.store);
            assert(gone =~= start.store.dom().difference(self@.store.dom()));
            assert(start.policy.scores.restrict(start.store.dom()) =~= start.policy.scores);
            assert(done =~= Set::new(|k: Seq<char>| exists|j: int| 0 <= j < 0 && expiries@[j].0@ == k));
        }
        while i < expiries.len()
            invariant
                self.inv(),
                lists_expiries(expiries@, start.store),
                0 <= i <= expiries@.len(),
                start.store.dom().finite(),
                done == Set::new(|k: Seq<char>| exists|j: int| 0 <= j < i && expiries@[j].0@ == k),
                forall|k: Seq<char>| #[trigger] self@.store.contains_key(k) <==> start.store.contains_key(k) && !(done.contains(k) && !live(start.store[k], now)),
                forall|k: Seq<char>| #[trigger] self@.store.contains_key(k) ==> self@.store[k] == start.store[k],
                self@.policy == (PolicyView { scores: start.policy.scores.restrict(self@.store.dom()), ..start.policy }),
                gone.finite(),
                gone == start.store.dom().difference(self@.store.dom()),
                self@.metrics == (MetricsView {
                    evictions: add_count(start.metrics.evictions, (start.store.len() - self@.store.len()) as nat),
                    entry_count: sub_count(start.metrics.entry_count, (start.store.len() - self@.store.len()) as nat),
                    total_bytes: sub_count(start.metrics.total_bytes, size_sum(start.store, gone)),
                    ..start.metrics
                }),
                self@.store.len() <= start.store.len(),
                self@.max_capacity == start.max_capacity,
                self@.policy_name == start.policy_name,
            decreases expiries@.len() - i,
        {
            let ghost before = self@;
            let expired = match expiries[i].1 {
                Some(t) => now >= t,
                None => false,
            };
            let ghost k = expiries@[i as int].0@;
            proof {
                assert(start.store.contains_key(k));
                assert(!done.contains(k)) by {
                    if done.contains(k) {
                        let j = choose|j: int| 0 <= j < i && expiries@[j].0@ == k;
                        assert(expiries@[j].0@ != expiries@[i as int].0@);
                    }
                }
                assert(self@.store.contains_key(k));
            }
            if expired {
                let removed = store_remove(&mut self.store, &expiries[i].0);
                EvictionPolicy::<String, Vec<u8>>::on_remove(&mut self.eviction_policy, &expiries[i].0);
                if let Some(e) = removed {
                    self.metrics.record_entry_removal(size_of_value(&e.0));
                }
                self.metrics.record_eviction();
                proof {
                    lemma_size_sum_insert(start.store, gone, k);
                    gone = gone.insert(k);
                    assert(gone =~= start.store.dom().difference(self@.store.dom()));
                    assert(self@.policy.scores =~= start.policy.scores.restrict(self@.store.dom()));
                    assert(self@.policy.scores.dom() =~= self@.store.dom());
                }
            }
            proof {
                done = done.insert(k);
                assert(done =~= Set::new(|k2: Seq<char>| exists|j: int| 0 <= j < i + 1 && expiries@[j].0@ == k2)) by {
                    assert forall|k2: Seq<char>| done.contains(k2) implies exists|j: int| 0 <= j < i + 1 && expiries@[j].0@ == k2 by {
                        if k2 == k {
                            assert(expiries@[i as int].0@ == k2);
                        } else {
                            let j = choose|j: int| 0 <= j < i && expiries@[j].0@ == k2;
                            assert(expiries@[j].0@ == k2);
                        }
                    }
                    assert forall|k2: Seq<char>| (exists|j: int| 0 <= j < i + 1 && expiries@[j].0@ == k2) implies done.contains(k2) by {
                        let j = choose|j: int| 0 <= j < i + 1 && expiries@[j].0@ == k2;
                        if j < i {
                            assert(exists|j2: int| 0 <= j2 < i && expiries@[j2].0@ == k2);
                        }
                    }
                }
            }
            i += 1;
        }
        proof {
            let target = start.purged(now);
            assert forall|k: Seq<char>| start.store.contains_key(k) implies done.contains(k) by {
                let j = choose|j: int| 0 <= j < expiries@.len() && expiries@[j].0@ == k;
                assert(expiries@[j].0@ == k);
            }
            assert(self@.store =~= target.store);
            assert(self@.policy.scores =~= target.policy.scores);
            assert(gone =~= start.store.dom().difference(target.store.dom()));
        }
    }
}

/// The state after the reads `reads`, each a key and a clock reading, made
/// one after another.
pub open spec fn after_gets(s: MemoryBackendView, reads: Seq<(Seq<char>, u64)>) -> MemoryBackendView
    decreases reads.len(),
{
    if reads.len() == 0 {
        s
    } else {
        let last = reads.last();
        after_gets(s, reads.drop_last()).after_get(last.0, last.1)
    }
}

/// An entry written with a time-to-live of `d` nanoseconds at `t0`, and not
/// evicted since, is read back before `t0 + d` and is absent from then on.
pub proof fn ttl_expiry_law(
    s: MemoryBackendView,
    s1: MemoryBackendView,
    key: Seq<char>,
    value: Seq<u8>,
    d: u64,
    t0: u64,
    t: u64,
)
    requires
        s.set_outcome(s1, key, value, Some(d), t0),
        s1.store.contains_key(key),
    ensures
        lookup(s1.store, key, t) == (if t < t0 + d { Some(value) } else { None::<Seq<u8>> }),
{
}

/// Removing a key that is absent changes nothing.
pub proof fn remove_absent_law(s: MemoryBackendView, key: Seq<char>)
    requires
        !s.store.contains_key(key),
    ensures
        s.after_remove(key) == s,
{
}

/// Removing a key twice in a row is the same as removing it once.
pub proof fn remove_twice_law(s: MemoryBackendView, key: Seq<char>)
    ensures
        s.after_remove(key).after_remove(key) == s.after_remove(key),
{
}

/// After two writes of one key, the key holds the second value: a read
/// returns it for as long as the second write's time-to-live lasts.
pub proof fn overwrite_law(
    s: MemoryBackendView,
    s1: MemoryBackendView,
    s2: MemoryBackendView,
    key: Seq<char>,
    v1: Seq<u8>,
    v2: Seq<u8>,
    ttl1: Option<u64>,
    ttl2: Option<u64>,
    t1: u64,
    t2: u64,
    t: u64,
)
    requires
        s.set_outcome(s1, key, v1, ttl1, t1),
        s1.set_outcome(s2, key, v2, ttl2, t2),
    ensures
        s2.store.contains_key(key),
        s2.store[key] == (v2, expiry(t2, ttl2)),
        live(s2.store[key], t) ==> lookup(s2.store, key, t) == Some(v2),
{
    if s1.has_room(key) {
        assert(s2 == s1.stored(key, v2, expiry(t2, ttl2)));
    } else {
        assert(s1.is_full_for(key));
        let victim = choose|victim: Seq<char>|
            lowest_first(s1.policy.scores, seq![victim], 1)
            && s2 == #[trigger] s1.displaced(victim).stored(key, v2, expiry(t2, ttl2));
        assert(s2.store.contains_key(key));
    }
}

/// After a clear no key is found, at any time.
pub proof fn clear_law(s: MemoryBackendView, key: Seq<char>, t: u64)
    ensures
        lookup(s.after_clear().store, key, t).is_none(),
        !s.after_clear().purged(t).store.contains_key(key),
{
}

/// Each read counts exactly one hit or one miss: after any reads, the hits
/// and misses together have grown by the number of reads (as long as the
/// counters stay below their maximum).
pub proof fn read_count_law(s: MemoryBackendView, reads: Seq<(Seq<char>, u64)>)
    requires
        s.metrics.hits + s.metrics.misses + reads.len() <= u64::MAX,
    ensures
        after_gets(s, reads).metrics.hits + after_gets(s, reads).metrics.misses
            == s.metrics.hits + s.metrics.misses + reads.len(),
    decreases reads.len(),
{
    if reads.len() > 0 {
        read_count_law(s, reads.drop_last());
    }
}

/// A read of an entry whose time-to-live has run out finds nothing, leaves
/// the key out of the store, and counts one miss and no hit (as long as the
/// miss counter is below its maximum).
pub proof fn expired_read_law(
    s: MemoryBackendView,
    s1: MemoryBackendView,
    key: Seq<char>,
    value: Seq<u8>,
    d: u64,
    t0: u64,
    t: u64,
)
    requires
        s.set_outcome(s1, key, value, Some(d), t0),
        t >= t0 + d,
        s1.metrics.misses < u64::MAX,
    ensures
        lookup(s1.store, key, t).is_none(),
        !s1.after_get(key, t).store.contains_key(key),
        s1.after_get(key, t).metrics.misses == s1.metrics.misses + 1,
        s1.after_get(key, t).metrics.hits == s1.metrics.hits,
{
}

/// Every read counts exactly one hit or one miss, and it is a hit exactly
/// when the read finds a value (as long as both counters are below their
/// maximum).
pub proof fn read_counts_once_law(s: MemoryBackendView, key: Seq<char>, t: u64)
    requires
        s.metrics.hits < u64::MAX,
        s.metrics.misses < u64::MAX,
    ensures
        s.after_get(key, t).metrics.hits + s.after_get(key, t).metrics.misses
            == s.metrics.hits + s.metrics.misses + 1,
        lookup(s.store, key, t).is_some() <==> s.after_get(key, t).metrics.hits == s.metrics.hits + 1,
{
}

/// The time-to-live of an optional duration, in nanoseconds.
pub open spec fn ttl_nanos(ttl: Option<Duration>) -> Option<u64> {
    match ttl {
        Some(d) => Some(capped_nanos(d)),
        None => None,
    }
}

impl CacheBackend for MemoryBackend {
    open spec fn well_formed(&self) -> bool {
        self.inv()
    }

    /// Reads `key` now (see `get_at`), and records the read's latency.
    fn get(&mut self, key: &Key) -> (r: crate::Result<Option<Value>>)
        ensures
            r matches Ok(v) && exists|t: u64, n: u64|
                bytes_of(v) == lookup(old(self)@.store, key@, t)
                && final(self)@ == #[trigger] old(self)@.after_get(key@, t).timed_read(n),
    {
        let timing = self.metrics.begin_get_timing();
        let now = self.now();
        let ghost mid = self@;
        let result = self.get_at(key, now);
        let ghost got = self@;
        self.metrics.record_get_latency(timing);
        proof {
            let n = choose|n: u64| self@.metrics == (MetricsView { get_latency: #[trigger] got.metrics.get_latency.with_sample(n), ..got.metrics });
            assert(self@ == mid.after_get(key@, now).timed_read(n));
        }
        Ok(result)
    }

    /// Writes `key` now (see `set_at`), and records the write's latency.
    fn set(&mut self, key: Key, value: Value, ttl: Option<Duration>) -> (r: crate::Result<()>)
        ensures
            r is Ok,
            exists|mid: MemoryBackendView, t: u64, n: u64|
                #[trigger] old(self)@.set_outcome(mid, key@, value@, ttl_nanos(ttl), t) && final(self)@ == #[trigger] mid.timed(n),
    {
        let timing = self.metrics.begin_set_timing();
        let now = self.now();
        let ttl_ns = match &ttl {
            Some(d) => Some(nanos_of(d)),
            None => None,
        };
        let ghost start = self@;
        let ghost kv = key@;
        let ghost vv = value@;
        self.set_at(key, value, ttl_ns, now);
        let ghost mid = self@;
        self.metrics.record_set_latency(timing);
        proof {
            let n = choose|n: u64| self@.metrics == (MetricsView { set_latency: #[trigger] mid.metrics.set_latency.with_sample(n), ..mid.metrics });
            assert(self@ == mid.timed(n));
            assert(start.set_outcome(mid, kv, vv, ttl_nanos(ttl), now));
        }
        Ok(())
    }

    /// Removes `key`, its policy score and its size; an absent key changes nothing.
    fn remove(&mut self, key: &Key) -> (r: crate::Result<()>)
        ensures
            r is Ok,
            final(self)@ == old(self)@.after_remove(key@),
    {
        let ghost start = self@;
        let removed = store_remove(&mut self.store, key);
        EvictionPolicy::<String, Vec<u8>>::on_remove(&mut self.eviction_policy, key);
        if let Some(e) = removed {
            self.metrics.record_entry_removal(size_of_value(&e.0));
        }
        proof {
            if !start.store.contains_key(key@) {
                assert(self@.store =~= start.store);
                assert(self@.policy.scores =~= start.policy.scores);
            }
            assert(self@.policy.scores.dom() =~= self@.store.dom());
        }
        Ok(())
    }

    /// Whether `key` holds a value now (see `contains_key_at`).
    fn contains_key(&mut self, key: &Key) -> (r: crate::Result<bool>)
        ensures
            r matches Ok(b) && exists|t: u64|
                b == lookup(old(self)@.store, key@, t).is_some()
                && final(self)@ == #[trigger] old(self)@.purged(t),
    {
        let now = self.now();
        Ok(self.contains_key_at(key, now))
    }

    /// Drops every entry, every policy score, and the size counters.
    fn clear(&mut self) -> (r: crate::Result<()>)
        ensures
            r is Ok,
            final(self)@ == old(self)@.after_clear(),
    {
        store_clear(&mut self.store);
        EvictionPolicy::<String, Vec<u8>>::reset(&mut self.eviction_policy);
        self.metrics.record_emptied();
        proof {
            assert(self@.store =~= Map::empty());
            assert(self@.policy.scores.dom() =~= self@.store.dom());
        }
        Ok(())
    }
}

} // verus!
