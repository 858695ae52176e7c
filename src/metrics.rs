//! Counters of cache operations: hits, misses, evictions, insertions, the
//! bytes and entries held, and the latency of reads and writes.
//!
//! Every counter saturates at its type's maximum instead of wrapping.
use crate::clock::{duration_nanos, nanos_since};
use std::time::{Duration, Instant};
use vstd::prelude::*;

verus! {

/// `a + b`, held at `u64::MAX`.
pub open spec fn add_u64(a: u64, b: u64) -> u64 {
    if a + b > u64::MAX { u64::MAX } else { (a + b) as u64 }
}

/// `a + b`, held at `usize::MAX`.
pub open spec fn add_usize(a: usize, b: usize) -> usize {
    if a + b > usize::MAX { usize::MAX } else { (a + b) as usize }
}

/// `a - b`, held at zero.
pub open spec fn sub_usize(a: usize, b: usize) -> usize {
    if a < b { 0 } else { (a - b) as usize }
}

/// A latency measurement of one kind of cache operation.
#[derive(Debug, Clone, Copy)]
pub struct LatencyMetric {
    /// Total time spent on operations (in nanoseconds)
    pub total_ns: u64,
    /// Number of operations measured
    pub count: u64,
    /// Maximum observed latency (in nanoseconds)
    pub max_ns: u64,
}

impl LatencyMetric {
    /// The measurement once one more operation, of `nanos` nanoseconds, is counted.
    pub open spec fn with_sample(self, nanos: u64) -> LatencyMetric {
        LatencyMetric {
            total_ns: add_u64(self.total_ns, nanos),
            count: add_u64(self.count, 1),
            max_ns: if nanos > self.max_ns { nanos } else { self.max_ns },
        }
    }

    /// The mean latency in whole nanoseconds, zero when nothing was measured.
    pub open spec fn average(self) -> u64 {
        if self.count == 0 { 0 } else { (self.total_ns / self.count) as u64 }
    }

    /// Creates a new empty latency metric.
    pub fn new() -> (r: Self)
        ensures
            r.total_ns == 0 && r.count == 0 && r.max_ns == 0,
    {
        LatencyMetric { total_ns: 0, count: 0, max_ns: 0 }
    }

    /// Counts one more operation that took `nanos` nanoseconds.
    pub fn record(&mut self, nanos: u64)
        ensures
            *final(self) == old(self).with_sample(nanos),
    {
        self.total_ns = self.total_ns.saturating_add(nanos);
        self.count = self.count.saturating_add(1);
        if nanos > self.max_ns {
            self.max_ns = nanos;
        }
    }

    /// Returns the average latency as a Duration.
    pub fn average_duration(&self) -> (r: Duration)
        ensures
            duration_nanos(r) == self.average() as u128,
    {
        if self.count == 0 {
            Duration::from_nanos(0)
        } else {
            Duration::from_nanos(self.total_ns / self.count)
        }
    }
}

impl Default for LatencyMetric {
    fn default() -> (r: Self)
        ensures
            r.total_ns == 0 && r.count == 0 && r.max_ns == 0,
    {
        Self::new()
    }
}

/// All counters of a [`Metrics`] value.
pub struct MetricsView {
    pub hits: u64,
    pub misses: u64,
    pub evictions: u64,
    pub insertions: u64,
    pub total_bytes: usize,
    pub entry_count: usize,
    pub get_latency: LatencyMetric,
    pub set_latency: LatencyMetric,
}

impl MetricsView {
    /// All counters at zero.
    pub open spec fn zero() -> MetricsView {
        MetricsView {
            hits: 0,
            misses: 0,
            evictions: 0,
            insertions: 0,
            total_bytes: 0,
            entry_count: 0,
            get_latency: LatencyMetric { total_ns: 0, count: 0, max_ns: 0 },
            set_latency: LatencyMetric { total_ns: 0, count: 0, max_ns: 0 },
        }
    }

    /// One more hit.
    pub open spec fn hit(self) -> MetricsView {
        MetricsView { hits: add_u64(self.hits, 1), ..self }
    }

    /// One more miss.
    pub open spec fn miss(self) -> MetricsView {
        MetricsView { misses: add_u64(self.misses, 1), ..self }
    }

    /// One more eviction.
    pub open spec fn evicted(self) -> MetricsView {
        MetricsView { evictions: add_u64(self.evictions, 1), ..self }
    }

    /// One more insertion.
    pub open spec fn inserted(self) -> MetricsView {
        MetricsView { insertions: add_u64(self.insertions, 1), ..self }
    }

    /// An entry of `old_size` bytes (zero for a new entry) now holds `new_size` bytes.
    pub open spec fn sized(self, old_size: usize, new_size: usize) -> MetricsView {
        let bytes = if old_size > 0 { sub_usize(self.total_bytes, old_size) } else { self.total_bytes };
        MetricsView {
            total_bytes: if new_size > 0 { add_usize(bytes, new_size) } else { bytes },
            entry_count: if old_size > 0 { self.entry_count } else { add_usize(self.entry_count, 1) },
            ..self
        }
    }

    /// An entry of `size` bytes is gone.
    pub open spec fn shrunk(self, size: usize) -> MetricsView {
        MetricsView {
            total_bytes: if size > 0 { sub_usize(self.total_bytes, size) } else { self.total_bytes },
            entry_count: sub_usize(self.entry_count, 1),
            ..self
        }
    }

    /// No bytes and no entries are held; the other counters stay.
    pub open spec fn emptied(self) -> MetricsView {
        MetricsView { total_bytes: 0, entry_count: 0, ..self }
    }
}

/// Tracks cache metrics like hits, misses, evictions, latency and size.
#[derive(Debug)]
pub struct Metrics {
    hits: u64,
    misses: u64,
    evictions: u64,
    insertions: u64,
    total_bytes: usize,
    entry_count: usize,
    get_latency: LatencyMetric,
    set_latency: LatencyMetric,
}

impl View for Metrics {
    type V = MetricsView;

    closed spec fn view(&self) -> MetricsView {
        MetricsView {
            hits: self.hits,
            misses: self.misses,
            evictions: self.evictions,
            insertions: self.insertions,
            total_bytes: self.total_bytes,
            entry_count: self.entry_count,
            get_latency: self.get_latency,
            set_latency: self.set_latency,
        }
    }
}

impl Default for Metrics {
    fn default() -> (r: Self)
        ensures
            r@ == MetricsView::zero(),
    {
        Self::new()
    }
}

impl Metrics {
    /// Creates a new `Metrics` instance with all counters set to zero.
    pub fn new() -> (r: Self)
        ensures
            r@ == MetricsView::zero(),
    {
        Metrics {
            hits: 0,
            misses: 0,
            evictions: 0,
            insertions: 0,
            total_bytes: 0,
            entry_count: 0,
            get_latency: LatencyMetric::new(),
            set_latency: LatencyMetric::new(),
        }
    }

    /// Records a cache hit.
    pub fn record_hit(&mut self)
        ensures
            final(self)@ == old(self)@.hit(),
    {
        self.hits = self.hits.saturating_add(1);
    }

    /// Records a cache miss.
    pub fn record_miss(&mut self)
        ensures
            final(self)@ == old(self)@.miss(),
    {
        self.misses = self.misses.saturating_add(1);
    }

    /// Records a cache eviction.
    pub fn record_eviction(&mut self)
        ensures
            final(self)@ == old(self)@.evicted(),
    {
        self.evictions = self.evictions.saturating_add(1);
    }

    /// Records a cache insertion.
    pub fn record_insertion(&mut self)
        ensures
            final(self)@ == old(self)@.inserted(),
    {
        self.insertions = self.insertions.saturating_add(1);
    }

    /// Records that an entry of `old_size` bytes (zero for a new entry) now
    /// holds `new_size` bytes.
    pub fn record_entry_size(&mut self, old_size: usize, new_size: usize)
        ensures
            final(self)@ == old(self)@.sized(old_size, new_size),
    {
        if old_size > 0 {
            self.total_bytes = self.total_bytes.saturating_sub(old_size);
        } else {
            self.entry_count = self.entry_count.saturating_add(1);
        }
        if new_size > 0 {
            self.total_bytes = self.total_bytes.saturating_add(new_size);
        }
    }

    /// Records removal of a cache entry and its size.
    pub fn record_entry_removal(&mut self, size: usize)
        ensures
            final(self)@ == old(self)@.shrunk(size),
    {
        if size > 0 {
            self.total_bytes = self.total_bytes.saturating_sub(size);
        }
        self.entry_count = self.entry_count.saturating_sub(1);
    }

    /// Records that the cache holds nothing any more.
    pub fn record_emptied(&mut self)
        ensures
            final(self)@ == old(self)@.emptied(),
    {
        self.total_bytes = 0;
        self.entry_count = 0;
    }

    /// Begins timing a get operation.
    pub fn begin_get_timing(&self) -> Instant {
        Instant::now()
    }

    /// Records the latency of a get operation that began at `start`.
    pub fn record_get_latency(&mut self, start: Instant)
        ensures
            exists|n: u64| final(self)@ == (MetricsView { get_latency: #[trigger] old(self)@.get_latency.with_sample(n), ..old(self)@ }),
    {
        let ghost before = self@;
        let nanos = nanos_since(&start);
        self.get_latency.record(nanos);
        assert(self@ == (MetricsView { get_latency: before.get_latency.with_sample(nanos), ..before }));
    }

    /// Begins timing a set operation.
    pub fn begin_set_timing(&self) -> Instant {
        Instant::now()
    }

    /// Records the latency of a set operation that began at `start`.
    pub fn record_set_latency(&mut self, start: Instant)
        ensures
            exists|n: u64| final(self)@ == (MetricsView { set_latency: #[trigger] old(self)@.set_latency.with_sample(n), ..old(self)@ }),
    {
        let ghost before = self@;
        let nanos = nanos_since(&start);
        self.set_latency.record(nanos);
        assert(self@ == (MetricsView { set_latency: before.set_latency.with_sample(nanos), ..before }));
    }

    /// Returns the current hit count.
    pub fn hits(&self) -> (r: u64)
        ensures
            r == self@.hits,
    {
        self.hits
    }

    /// Returns the current miss count.
    pub fn misses(&self) -> (r: u64)
        ensures
            r == self@.misses,
    {
        self.misses
    }

    /// Returns the current eviction count.
    pub fn evictions(&self) -> (r: u64)
        ensures
            r == self@.evictions,
    {
        self.evictions
    }

    /// Returns the current insertion count.
    pub fn insertions(&self) -> (r: u64)
        ensures
            r == self@.insertions,
    {
        self.insertions
    }

    /// Returns the total cache size in bytes.
    pub fn total_bytes(&self) -> (r: usize)
        ensures
            r == self@.total_bytes,
    {
        self.total_bytes
    }

    /// Returns the total number of entries in the cache.
    pub fn entry_count(&self) -> (r: usize)
        ensures
            r == self@.entry_count,
    {
        self.entry_count
    }

    /// Returns the average entry size in bytes, zero when there is no entry.
    pub fn average_entry_size(&self) -> (r: usize)
        ensures
            r == (if self@.entry_count == 0 { 0 } else { self@.total_bytes / self@.entry_count }),
    {
        let count = self.entry_count();
        let bytes = self.total_bytes();
        if count == 0 {
            0
        } else {
            bytes / count
        }
    }

    /// Returns latency metrics for get operations.
    pub fn get_latency(&self) -> (r: LatencyMetric)
        ensures
            r == self@.get_latency,
    {
        self.get_latency
    }

    /// Returns latency metrics for set operations.
    pub fn set_latency(&self) -> (r: LatencyMetric)
        ensures
            r == self@.set_latency,
    {
        self.set_latency
    }
}

} // verus!
