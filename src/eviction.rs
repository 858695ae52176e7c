//! Eviction policies: which keys to sacrifice when the cache needs room.
//!
//! Both policies keep a score per tracked key in a concurrent map and evict
//! the keys with the lowest scores first. For LRU the score is an access
//! stamp drawn from a counter that every insert and access advances, so a
//! lower stamp means a less recent use; for LFU it is the number of uses.
use crate::sharded::{lists_scores, score_contents, scores_clear, scores_entries, scores_get, scores_insert, scores_new, scores_remove};
use dashmap::DashMap;
use vstd::prelude::*;

verus! {

/// Result of an eviction policy decision.
pub struct EvictionResult<K> {
    /// The keys that should be evicted from the cache, lowest score first.
    pub keys_to_evict: Vec<K>,
}

/// A cache eviction policy: it is told of every insert, access and removal,
/// and on demand names the keys to evict.
pub trait EvictionPolicy<K, V> {
    /// Called when an item is inserted into the cache.
    fn on_insert(&mut self, key: &K, value: &V);

    /// Called when an item is accessed from the cache.
    fn on_access(&mut self, key: &K);

    /// Called when an item is removed from the cache.
    fn on_remove(&mut self, key: &K);

    /// Names up to `count` keys to evict and forgets them.
    fn evict(&mut self, count: usize) -> (r: EvictionResult<K>);

    /// Forgets every tracked key.
    fn reset(&mut self);
}

/// What a policy knows: whether it counts uses (LFU) or stamps them (LRU),
/// the score of each tracked key, and, for LRU, the next stamp to hand out.
pub struct PolicyView {
    pub lfu: bool,
    pub scores: Map<Seq<char>, u64>,
    pub clock: u64,
}

/// `n + 1`, held at `u64::MAX`.
pub open spec fn bumped(n: u64) -> u64 {
    if n == u64::MAX {
        n
    } else {
        (n + 1) as u64
    }
}

/// The texts of a sequence of keys.
pub open spec fn key_views(s: Seq<String>) -> Seq<Seq<char>> {
    s.map_values(|k: String| k@)
}

/// `picked` are the `min(count, |scores|)` lowest-scored keys of `scores`,
/// each once, in ascending order of score; among equal scores the order is
/// not fixed.
pub open spec fn lowest_first(scores: Map<Seq<char>, u64>, picked: Seq<Seq<char>>, count: nat) -> bool {
    &&& picked.len() == (if count < scores.len() { count } else { scores.len() })
    &&& picked.no_duplicates()
    &&& forall|i: int| 0 <= i < picked.len() ==> #[trigger] scores.contains_key(picked[i])
    &&& forall|i: int, j: int|
        0 <= i < j < picked.len() ==> scores[#[trigger] picked[i]] <= scores[#[trigger] picked[j]]
    &&& forall|i: int, k: Seq<char>|
        0 <= i < picked.len() && #[trigger] scores.contains_key(k) && !picked.contains(k)
            ==> scores[#[trigger] picked[i]] <= scores[k]
}

impl PolicyView {
    /// The state after a key is inserted.
    pub open spec fn inserted(self, k: Seq<char>) -> PolicyView {
        if self.lfu {
            PolicyView { scores: self.scores.insert(k, 1), ..self }
        } else {
            PolicyView { scores: self.scores.insert(k, self.clock), clock: bumped(self.clock), ..self }
        }
    }

    /// The state after a key is accessed.
    pub open spec fn accessed(self, k: Seq<char>) -> PolicyView {
        if self.lfu {
            let n = if self.scores.contains_key(k) { bumped(self.scores[k]) } else { 1 };
            PolicyView { scores: self.scores.insert(k, n), ..self }
        } else if self.scores.contains_key(k) {
            PolicyView { scores: self.scores.insert(k, self.clock), clock: bumped(self.clock), ..self }
        } else {
            self
        }
    }

    /// The state after a key is removed.
    pub open spec fn removed(self, k: Seq<char>) -> PolicyView {
        PolicyView { scores: self.scores.remove(k), ..self }
    }

    /// The state with every key forgotten.
    pub open spec fn cleared(self) -> PolicyView {
        PolicyView { scores: Map::empty(), ..self }
    }

    /// `after` is this state once `picked` were chosen for eviction out of
    /// `count` requested.
    pub open spec fn evicted(self, after: PolicyView, picked: Seq<Seq<char>>, count: nat) -> bool {
        &&& lowest_first(self.scores, picked, count)
        &&& after == PolicyView { scores: self.scores.remove_keys(picked.to_set()), ..self }
    }
}

/// Removes and returns, lowest score first, up to `count` of the
/// lowest-scored keys of `m`.
fn evict_lowest(m: &mut DashMap<String, u64>, count: usize) -> (r: Vec<String>)
    ensures
        lowest_first(score_contents(*old(m)), key_views(r@), count as nat),
        score_contents(*final(m)) == score_contents(*old(m)).remove_keys(key_views(r@).to_set()),
{
    let ghost before = score_contents(*m);
    let mut entries = scores_entries(m);
    let mut out: Vec<String> = Vec::new();
    while out.len() < count && entries.len() > 0
        invariant
            lists_scores(entries@, score_contents(*m)),
            score_contents(*m).dom().finite(),
            before.dom().finite(),
            out@.len() <= count,
            out@.len() + score_contents(*m).len() == before.len(),
            key_views(out@).no_duplicates(),
            forall|i: int| 0 <= i < out@.len() ==> #[trigger] before.contains_key(out@[i]@),
            forall|k: Seq<char>|
                #[trigger] score_contents(*m).contains_key(k) <==> before.contains_key(k)
                    && !key_views(out@).contains(k),
            forall|k: Seq<char>|
                #[trigger] score_contents(*m).contains_key(k) ==> score_contents(*m)[k] == before[k],
            forall|i: int, j: int|
                0 <= i < j < out@.len() ==> before[#[trigger] out@[i]@] <= before[#[trigger] out@[j]@],
            forall|i: int, k: Seq<char>|
                0 <= i < out@.len() && #[trigger] score_contents(*m).contains_key(k)
                    ==> before[#[trigger] out@[i]@] <= before[k],
        decreases entries@.len(),
    {
        let ghost cur = score_contents(*m);
        let mut best: usize = 0;
        let mut j: usize = 1;
        while j < entries.len()
            invariant
                0 < entries@.len(),
                best < entries@.len(),
                1 <= j <= entries@.len(),
                forall|t: int| 0 <= t < j ==> entries@[best as int].1 <= #[trigger] entries@[t].1,
            decreases entries@.len() - j,
        {
            if entries[j].1 < entries[best].1 {
                best = j;
            }
            j += 1;
        }
        let ghost old_entries = entries@;
        let (k, _score) = entries.remove(best);
        proof {
            assert(cur.contains_key(old_entries[best as int].0@));
            assert forall|t: int| 0 <= t < old_entries.len() implies cur[k@] <= #[trigger] cur[old_entries[t].0@] by {
                assert(cur.contains_key(old_entries[t].0@));
            }
        }
        scores_remove(m, &k);
        proof {
            let c = score_contents(*m);
            assert(c == cur.remove(k@));
            assert forall|i: int| 0 <= i < entries@.len() implies #[trigger] c.contains_key(entries@[i].0@)
                && c[entries@[i].0@] == entries@[i].1 by {
                if i < best {
                    assert(entries@[i] == old_entries[i]);
                } else {
                    assert(entries@[i] == old_entries[i + 1]);
                }
            }
            assert forall|k2: Seq<char>| #[trigger] c.contains_key(k2) implies exists|i: int|
                0 <= i < entries@.len() && entries@[i].0@ == k2 by {
                assert(cur.contains_key(k2));
                let i = choose|i: int| 0 <= i < old_entries.len() && old_entries[i].0@ == k2;
                if i < best {
                    assert(entries@[i] == old_entries[i]);
                } else {
                    assert(i != best);
                    assert(entries@[i - 1] == old_entries[i]);
                }
            }
            assert forall|i: int, j2: int| 0 <= i < j2 < entries@.len() implies entries@[i].0@ != entries@[j2].0@ by {
                let oi = if i < best { i } else { i + 1 };
                let oj = if j2 < best { j2 } else { j2 + 1 };
                assert(entries@[i] == old_entries[oi]);
                assert(entries@[j2] == old_entries[oj]);
            }
            // every remaining key scores at least as much as the one taken
            assert forall|k2: Seq<char>| #[trigger] c.contains_key(k2) implies before[k@] <= before[k2] by {
                let t = choose|t: int| 0 <= t < old_entries.len() && old_entries[t].0@ == k2;
                assert(cur.contains_key(old_entries[t].0@));
            }
        }
        let ghost out_before = out@;
        out.push(k);
        proof {
            assert(key_views(out@) == key_views(out_before).push(k@));
            assert forall|x: Seq<char>| key_views(out@).contains(x) <==> key_views(out_before).contains(x) || x == k@ by {
                if key_views(out_before).contains(x) {
                    let i = choose|i: int| 0 <= i < key_views(out_before).len() && key_views(out_before)[i] == x;
                    assert(key_views(out@)[i] == x);
                }
                if x == k@ {
                    assert(key_views(out@)[out_before.len() as int] == x);
                }
            }
        }
    }
    proof {
        let c = score_contents(*m);
        let picked = key_views(out@);
        if entries@.len() == 0 {
            if c.len() > 0 {
                let k0 = c.dom().choose();
                assert(c.contains_key(k0));
            }
        }
        assert(c =~= before.remove_keys(picked.to_set()));
        assert forall|i: int| 0 <= i < picked.len() implies #[trigger] before.contains_key(picked[i]) by {
            assert(picked[i] == out@[i]@);
        }
        assert forall|i: int, j: int| 0 <= i < j < picked.len() implies before[#[trigger] picked[i]]
            <= before[#[trigger] picked[j]] by {
            assert(picked[i] == out@[i]@);
            assert(picked[j] == out@[j]@);
        }
        assert forall|i: int, k: Seq<char>|
            0 <= i < picked.len() && #[trigger] before.contains_key(k) && !picked.contains(k)
                implies before[#[trigger] picked[i]] <= before[k] by {
            assert(picked[i] == out@[i]@);
            assert(c.contains_key(k));
        }
    }
    out
}

/// LRU (least recently used) eviction policy: evicts the keys whose last
/// insert or access lies furthest back.
#[derive(Debug)]
pub struct LruPolicy {
    access_order: DashMap<String, u64>,
    clock: u64,
}

impl View for LruPolicy {
    type V = PolicyView;

    closed spec fn view(&self) -> PolicyView {
        PolicyView { lfu: false, scores: score_contents(self.access_order), clock: self.clock }
    }
}

impl LruPolicy {
    /// Creates a new LRU eviction policy that tracks no key.
    pub fn new() -> (r: Self)
        ensures
            r@ == (PolicyView { lfu: false, scores: Map::empty(), clock: 0 }),
    {
        let access_order = scores_new();
        let r = LruPolicy { access_order, clock: 0 };
        assert(r@.scores =~= Map::empty());
        r
    }

    /// Gives the key the next access stamp.
    fn stamp(&mut self, key: &String)
        ensures
            final(self)@ == (PolicyView {
                scores: old(self)@.scores.insert(key@, old(self)@.clock),
                clock: bumped(old(self)@.clock),
                ..old(self)@
            }),
    {
        scores_insert(&mut self.access_order, key.clone(), self.clock);
        if self.clock < u64::MAX {
            self.clock = self.clock + 1;
        }
    }
}

impl EvictionPolicy<String, Vec<u8>> for LruPolicy {
    fn on_insert(&mut self, key: &String, _value: &Vec<u8>)
        ensures
            final(self)@ == old(self)@.inserted(key@),
    {
        self.stamp(key);
    }

    fn on_access(&mut self, key: &String)
        ensures
            final(self)@ == old(self)@.accessed(key@),
    {
        if scores_get(&self.access_order, key).is_some() {
            self.stamp(key);
        }
    }

    fn on_remove(&mut self, key: &String)
        ensures
            final(self)@ == old(self)@.removed(key@),
    {
        scores_remove(&mut self.access_order, key);
    }

    fn evict(&mut self, count: usize) -> (r: EvictionResult<String>)
        ensures
            old(self)@.evicted(final(self)@, key_views(r.keys_to_evict@), count as nat),
    {
        let keys_to_evict = evict_lowest(&mut self.access_order, count);
        EvictionResult { keys_to_evict }
    }

    fn reset(&mut self)
        ensures
            final(self)@ == old(self)@.cleared(),
    {
        scores_clear(&mut self.access_order);
        assert(self@.scores =~= Map::empty());
    }
}

/// LFU (least frequently used) eviction policy: evicts the keys used the
/// fewest times since they were inserted.
#[derive(Debug)]
pub struct LfuPolicy {
    access_count: DashMap<String, u64>,
}

impl View for LfuPolicy {
    type V = PolicyView;

    closed spec fn view(&self) -> PolicyView {
        PolicyView { lfu: true, scores: score_contents(self.access_count), clock: 0 }
    }
}

impl LfuPolicy {
    /// Creates a new LFU eviction policy that tracks no key.
    pub fn new() -> (r: Self)
        ensures
            r@ == (PolicyView { lfu: true, scores: Map::empty(), clock: 0 }),
    {
        let access_count = scores_new();
        let r = LfuPolicy { access_count };
        assert(r@.scores =~= Map::empty());
        r
    }
}

impl EvictionPolicy<String, Vec<u8>> for LfuPolicy {
    fn on_insert(&mut self, key: &String, _value: &Vec<u8>)
        ensures
            final(self)@ == old(self)@.inserted(key@),
    {
        scores_insert(&mut self.access_count, key.clone(), 1);
    }

    fn on_access(&mut self, key: &String)
        ensures
            final(self)@ == old(self)@.accessed(key@),
    {
        let n = match scores_get(&self.access_count, key) {
            Some(c) => if c < u64::MAX { c + 1 } else { c },
            None => 1,
        };
        scores_insert(&mut self.access_count, key.clone(), n);
    }

    fn on_remove(&mut self, key: &String)
        ensures
            final(self)@ == old(self)@.removed(key@),
    {
        scores_remove(&mut self.access_count, key);
    }

    fn evict(&mut self, count: usize) -> (r: EvictionResult<String>)
        ensures
            old(self)@.evicted(final(self)@, key_views(r.keys_to_evict@), count as nat),
    {
        if count == 0 {
            let r = EvictionResult { keys_to_evict: Vec::new() };
            assert(self@.scores =~= self@.scores.remove_keys(key_views(r.keys_to_evict@).to_set()));
            return r;
        }
        let keys_to_evict = evict_lowest(&mut self.access_count, count);
        EvictionResult { keys_to_evict }
    }

    fn reset(&mut self)
        ensures
            final(self)@ == old(self)@.cleared(),
    {
        scores_clear(&mut self.access_count);
        assert(self@.scores =~= Map::empty());
    }
}

/// The policy a cache runs, chosen by name when the cache is configured.
#[derive(Debug)]
pub enum ActivePolicy {
    Lru(LruPolicy),
    Lfu(LfuPolicy),
}

impl View for ActivePolicy {
    type V = PolicyView;

    open spec fn view(&self) -> PolicyView {
        match self {
            ActivePolicy::Lru(p) => p@,
            ActivePolicy::Lfu(p) => p@,
        }
    }
}

impl EvictionPolicy<String, Vec<u8>> for ActivePolicy {
    fn on_insert(&mut self, key: &String, value: &Vec<u8>)
        ensures
            final(self)@ == old(self)@.inserted(key@),
    {
        match self {
            ActivePolicy::Lru(p) => p.on_insert(key, value),
            ActivePolicy::Lfu(p) => p.on_insert(key, value),
        }
    }

    fn on_access(&mut self, key: &String)
        ensures
            final(self)@ == old(self)@.accessed(key@),
    {
        match self {
            ActivePolicy::Lru(p) => EvictionPolicy::<String, Vec<u8>>::on_access(p, key),
            ActivePolicy::Lfu(p) => EvictionPolicy::<String, Vec<u8>>::on_access(p, key),
        }
    }

    fn on_remove(&mut self, key: &String)
        ensures
            final(self)@ == old(self)@.removed(key@),
    {
        match self {
            ActivePolicy::Lru(p) => EvictionPolicy::<String, Vec<u8>>::on_remove(p, key),
            ActivePolicy::Lfu(p) => EvictionPolicy::<String, Vec<u8>>::on_remove(p, key),
        }
    }

    fn evict(&mut self, count: usize) -> (r: EvictionResult<String>)
        ensures
            old(self)@.evicted(final(self)@, key_views(r.keys_to_evict@), count as nat),
    {
        match self {
            ActivePolicy::Lru(p) => EvictionPolicy::<String, Vec<u8>>::evict(p, count),
            ActivePolicy::Lfu(p) => EvictionPolicy::<String, Vec<u8>>::evict(p, count),
        }
    }

    fn reset(&mut self)
        ensures
            final(self)@ == old(self)@.cleared(),
    {
        match self {
            ActivePolicy::Lru(p) => EvictionPolicy::<String, Vec<u8>>::reset(p),
            ActivePolicy::Lfu(p) => EvictionPolicy::<String, Vec<u8>>::reset(p),
        }
    }
}

/// What `str::to_lowercase` makes of a text.
pub uninterp spec fn lowercase_of(s: Seq<char>) -> Seq<char>;

/// Relies on `str::to_lowercase`: the result depends on the characters alone.
#[verifier::external_body]
fn lowercase(s: &str) -> (r: String)
    ensures
        r@ == lowercase_of(s@),
{
    s.to_lowercase()
}

/// The fresh policy for a name already in lower case: LFU for `"lfu"`, LRU
/// for `"lru"` and for any name not recognised.
pub fn policy_for_lowercase(name: &String) -> (r: ActivePolicy)
    ensures
        r@ == (PolicyView { lfu: name@ == "lfu"@, scores: Map::empty(), clock: 0 }),
{
    let lfu = "lfu".to_owned();
    if *name == lfu {
        ActivePolicy::Lfu(LfuPolicy::new())
    } else {
        ActivePolicy::Lru(LruPolicy::new())
    }
}

/// Creates the policy named by `policy_type`, compared without regard to
/// case: `"lfu"` gives LFU; `"lru"`, and any name not recognised, give LRU.
pub fn create_policy(policy_type: &str) -> (r: ActivePolicy)
    ensures
        r@ == (PolicyView { lfu: lowercase_of(policy_type@) == "lfu"@, scores: Map::empty(), clock: 0 }),
{
    let lower = lowercase(policy_type);
    policy_for_lowercase(&lower)
}

} // verus!
