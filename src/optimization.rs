//! Helpers around a cache: statistics of cached calls, a memory budget,
//! compression of cached values, prefetching and batched writes.
use crate::backends::{CacheBackend, Key, Value};
use crate::clock::duration_nanos;
use crate::error::Error;
use crate::metrics::add_u64;
use std::io::{Read, Write};
use std::time::Duration;
use vstd::prelude::*;

verus! {

/// The counters of a [`CacheStats`].
pub struct CacheStatsView {
    pub hits: u64,
    pub misses: u64,
    pub time_saved_ns: u64,
    pub execution_time_ns: u64,
}

/// Statistics of cached calls: hits and the time they saved, misses and the
/// time the computations took. Counters saturate at `u64::MAX`.
#[derive(Debug)]
pub struct CacheStats {
    hits: u64,
    misses: u64,
    time_saved_ns: u64,
    execution_time_ns: u64,
}

impl View for CacheStats {
    type V = CacheStatsView;

    closed spec fn view(&self) -> CacheStatsView {
        CacheStatsView {
            hits: self.hits,
            misses: self.misses,
            time_saved_ns: self.time_saved_ns,
            execution_time_ns: self.execution_time_ns,
        }
    }
}

impl CacheStats {
    /// All counters at zero.
    pub fn new() -> (r: Self)
        ensures
            r@ == (CacheStatsView { hits: 0, misses: 0, time_saved_ns: 0, execution_time_ns: 0 }),
    {
        CacheStats { hits: 0, misses: 0, time_saved_ns: 0, execution_time_ns: 0 }
    }

    /// Records a hit that saved `saved_time_ns` nanoseconds.
    pub fn record_hit(&mut self, saved_time_ns: u64)
        ensures
            final(self)@ == (CacheStatsView {
                hits: add_u64(old(self)@.hits, 1),
                time_saved_ns: add_u64(old(self)@.time_saved_ns, saved_time_ns),
                ..old(self)@
            }),
    {
        self.hits = self.hits.saturating_add(1);
        self.time_saved_ns = self.time_saved_ns.saturating_add(saved_time_ns);
    }

    /// Records a miss whose computation took `execution_time_ns` nanoseconds.
    pub fn record_miss(&mut self, execution_time_ns: u64)
        ensures
            final(self)@ == (CacheStatsView {
                misses: add_u64(old(self)@.misses, 1),
                execution_time_ns: add_u64(old(self)@.execution_time_ns, execution_time_ns),
                ..old(self)@
            }),
    {
        self.misses = self.misses.saturating_add(1);
        self.execution_time_ns = self.execution_time_ns.saturating_add(execution_time_ns);
    }

    /// The number of hits.
    pub fn hit_count(&self) -> (r: u64)
        ensures
            r == self@.hits,
    {
        self.hits
    }

    /// The number of misses.
    pub fn miss_count(&self) -> (r: u64)
        ensures
            r == self@.misses,
    {
        self.misses
    }

    /// The total time the hits saved.
    pub fn time_saved(&self) -> (r: Duration)
        ensures
            duration_nanos(r) == self@.time_saved_ns as u128,
    {
        Duration::from_nanos(self.time_saved_ns)
    }

    /// The mean time of a computation on a miss, zero when there was none.
    pub fn average_execution_time(&self) -> (r: Duration)
        ensures
            duration_nanos(r) == (if self@.misses == 0 { 0 } else { self@.execution_time_ns / self@.misses }) as u128,
    {
        if self.misses == 0 {
            Duration::from_nanos(0)
        } else {
            Duration::from_nanos(self.execution_time_ns / self.misses)
        }
    }

    /// Sets every counter back to zero.
    pub fn reset(&mut self)
        ensures
            final(self)@ == (CacheStatsView { hits: 0, misses: 0, time_saved_ns: 0, execution_time_ns: 0 }),
    {
        self.hits = 0;
        self.misses = 0;
        self.time_saved_ns = 0;
        self.execution_time_ns = 0;
    }
}

impl Default for CacheStats {
    fn default() -> (r: Self)
        ensures
            r@ == (CacheStatsView { hits: 0, misses: 0, time_saved_ns: 0, execution_time_ns: 0 }),
    {
        Self::new()
    }
}

/// Tracks the bytes a cache holds against a budget.
#[derive(Debug)]
pub struct MemoryOptimizer {
    max_memory: usize,
    current_memory: u64,
}

impl MemoryOptimizer {
    /// The budget in bytes.
    pub closed spec fn budget(&self) -> usize {
        self.max_memory
    }

    /// The bytes currently held.
    pub closed spec fn held(&self) -> u64 {
        self.current_memory
    }

    /// A budget of `max_memory_mb` mebibytes (held at `usize::MAX` bytes),
    /// with nothing held.
    pub fn new(max_memory_mb: usize) -> (r: Self)
        ensures
            r.budget() == (if max_memory_mb * 1048576 > usize::MAX { usize::MAX as int } else { max_memory_mb * 1048576 }),
            r.held() == 0,
    {
        let max_memory = if max_memory_mb > usize::MAX / 1048576 {
            usize::MAX
        } else {
            proof {
                assert(max_memory_mb * 1048576 <= (usize::MAX / 1048576) * 1048576) by (nonlinear_arith)
                    requires max_memory_mb <= usize::MAX / 1048576;
            }
            max_memory_mb * 1048576
        };
        proof {
            if max_memory_mb > usize::MAX / 1048576 {
                assert(max_memory_mb * 1048576 > usize::MAX) by (nonlinear_arith)
                    requires max_memory_mb > usize::MAX / 1048576, max_memory_mb >= 0;
            }
        }
        MemoryOptimizer { max_memory, current_memory: 0 }
    }

    /// Counts `size_bytes` more bytes held.
    pub fn record_allocation(&mut self, size_bytes: usize)
        ensures
            final(self).budget() == old(self).budget(),
            final(self).held() == add_u64(old(self).held(), size_bytes as u64),
    {
        self.current_memory = self.current_memory.saturating_add(size_bytes as u64);
    }

    /// Counts `size_bytes` fewer bytes held, stopping at zero.
    pub fn record_deallocation(&mut self, size_bytes: usize)
        ensures
            final(self).budget() == old(self).budget(),
            final(self).held() == (if old(self).held() < size_bytes { 0 } else { old(self).held() - size_bytes }),
    {
        self.current_memory = self.current_memory.saturating_sub(size_bytes as u64);
    }

    /// Whether more bytes are held than the budget allows.
    pub fn should_evict(&self) -> (r: bool)
        ensures
            r == (self.held() > self.budget()),
    {
        self.current_memory > self.max_memory as u64
    }

    /// The bytes currently held.
    pub fn memory_usage(&self) -> (r: usize)
        ensures
            r == self.held() as usize,
    {
        #[verifier::truncate]
        (self.current_memory as usize)
    }
}

/// What zlib compression at `level` makes of `data`.
pub uninterp spec fn zlib_compressed(data: Seq<u8>, level: u32) -> Seq<u8>;

/// What zlib decompression makes of `data`, when it is a valid stream.
pub uninterp spec fn zlib_decompressed(data: Seq<u8>) -> Seq<u8>;

/// `std::io::Error`, opaque to proofs; only its text is used.
#[verifier::external_type_specification]
#[verifier::external_body]
pub struct ExIoError(std::io::Error);

/// Relies on `flate2::write::ZlibEncoder`: the zlib stream of `data` at
/// `level`, or the write error. Levels above 9 are outside zlib's range
/// (flate2's miniz backend asserts on them).
#[verifier::external_body]
fn zlib_compress(data: &[u8], level: u32) -> (r: core::result::Result<Vec<u8>, std::io::Error>)
    requires
        level <= 9,
    ensures
        r matches Ok(v) ==> v@ == zlib_compressed(data@, level),
{
    let mut encoder = flate2::write::ZlibEncoder::new(Vec::new(), flate2::Compression::new(level));
    encoder.write_all(data)?;
    encoder.finish()
}

/// Relies on `flate2::read::ZlibDecoder`: the bytes the zlib stream `data`
/// holds, or the error that reading it met.
#[verifier::external_body]
fn zlib_decompress(data: &[u8]) -> (r: core::result::Result<Vec<u8>, std::io::Error>)
    ensures
        r matches Ok(v) ==> v@ == zlib_decompressed(data@),
{
    let mut decoder = flate2::read::ZlibDecoder::new(data);
    let mut out = Vec::new();
    decoder.read_to_end(&mut out)?;
    Ok(out)
}

/// Zlib compression of cached values at a fixed level.
#[derive(Debug)]
pub struct Compression {
    level: u32,
}

impl Compression {
    /// The level always lies in zlib's range.
    #[verifier::type_invariant]
    spec fn level_in_range(self) -> bool {
        self.level <= 9
    }

    /// The compression level, from 0 (none) to 9 (best).
    pub closed spec fn spec_level(&self) -> u32 {
        self.level
    }

    /// Compression at `level`, held at 9.
    pub fn new(level: u32) -> (r: Self)
        ensures
            r.spec_level() == (if level > 9 { 9 } else { level }),
    {
        Compression { level: if level > 9 { 9 } else { level } }
    }

    /// The zlib stream of `data`; a failure is a codec error.
    pub fn compress(&self, data: &[u8]) -> (r: crate::Result<Vec<u8>>)
        ensures
            r matches Ok(v) ==> v@ == zlib_compressed(data@, self.spec_level()),
            r matches Err(e) ==> e is Codec,
    {
        proof {
            use_type_invariant(self);
        }
        match zlib_compress(data, self.level) {
            Ok(v) => Ok(v),
            Err(e) => Err(Error::Codec(e.to_string())),
        }
    }

    /// The bytes the zlib stream `data` holds; a failure is a codec error.
    pub fn decompress(&self, data: &[u8]) -> (r: crate::Result<Vec<u8>>)
        ensures
            r matches Ok(v) ==> v@ == zlib_decompressed(data@),
            r matches Err(e) ==> e is Codec,
    {
        match zlib_decompress(data) {
            Ok(v) => Ok(v),
            Err(e) => Err(Error::Codec(e.to_string())),
        }
    }
}

/// Writes a batch of precomputed entries into a backend, up to a limit.
#[derive(Debug)]
pub struct Prefetcher<B: CacheBackend> {
    backend: B,
    max_items: usize,
}

impl<B: CacheBackend> Prefetcher<B> {
    /// The backend written to.
    pub closed spec fn target(&self) -> B {
        self.backend
    }

    /// The most entries one prefetch writes.
    pub closed spec fn limit(&self) -> usize {
        self.max_items
    }

    /// A prefetcher into `backend` that writes at most 10 entries at a time.
    pub fn new(backend: B) -> (r: Self)
        ensures
            r.target() == backend,
            r.limit() == 10,
    {
        Prefetcher { backend, max_items: 10 }
    }

    /// The same prefetcher with a limit of `max_items` entries.
    pub fn with_max_items(self, max_items: usize) -> (r: Self)
        ensures
            r.target() == self.target(),
            r.limit() == max_items,
    {
        let mut s = self;
        s.max_items = max_items;
        s
    }

    /// Writes the first entries of `items`, at most the limit, in order,
    /// each with `ttl`; stops at the first failed write and returns its error.
    pub fn prefetch(&mut self, items: Vec<(Key, Value)>, ttl: Option<Duration>) -> (r: crate::Result<()>)
        requires
            old(self).target().well_formed(),
        ensures
            final(self).target().well_formed(),
            final(self).limit() == old(self).limit(),
    {
        let mut i: usize = 0;
        while i < items.len() && i < self.max_items
            invariant
                self.backend.well_formed(),
                self.max_items == old(self).max_items,
            decreases items@.len() - i,
        {
            let key = items[i].0.clone();
            let value = items[i].1.clone();
            match self.backend.set(key, value, ttl) {
                Ok(()) => {},
                Err(e) => {
                    return Err(e);
                },
            }
            i += 1;
        }
        Ok(())
    }
}

/// A write or a removal waiting in a batch.
#[derive(Debug)]
enum BatchOperation {
    Insert { key: Key, value: Value, ttl: Option<Duration> },
    Erase(Key),
}

/// A waiting operation, as a batch's contract sees it.
pub enum PendingOp {
    Put(Seq<char>, Seq<u8>, Option<Duration>),
    Delete(Seq<char>),
}

/// The contract's view of one waiting operation.
spec fn pending_of(op: BatchOperation) -> PendingOp {
    match op {
        BatchOperation::Insert { key, value, ttl } => PendingOp::Put(key@, value@, ttl),
        BatchOperation::Erase(key) => PendingOp::Delete(key@),
    }
}

/// Operations gathered to be run against a backend in one go.
#[derive(Debug)]
pub struct BatchOperations<B: CacheBackend> {
    backend: B,
    operations: Vec<BatchOperation>,
}

impl<B: CacheBackend> BatchOperations<B> {
    /// The backend the batch runs against.
    pub closed spec fn target(&self) -> B {
        self.backend
    }

    /// The operations waiting, in the order they were added.
    pub closed spec fn pending(&self) -> Seq<PendingOp> {
        self.operations@.map_values(|op: BatchOperation| pending_of(op))
    }

    /// An empty batch against `backend`.
    pub fn new(backend: B) -> (r: Self)
        ensures
            r.target() == backend,
            r.pending() == Seq::<PendingOp>::empty(),
    {
        let r = BatchOperations { backend, operations: Vec::new() };
        assert(r.pending() =~= Seq::<PendingOp>::empty());
        r
    }

    /// Adds a write of `value` under `key` with `ttl`.
    pub fn set(&mut self, key: Key, value: Value, ttl: Option<Duration>) -> (r: &mut Self)
        ensures
            r.target() == old(self).target(),
            r.pending() == old(self).pending().push(PendingOp::Put(key@, value@, ttl)),
            *final(self) == *final(r),
    {
        let ghost before = self.pending();
        self.operations.push(BatchOperation::Insert { key, value, ttl });
        assert(self.pending() =~= before.push(PendingOp::Put(key@, value@, ttl)));
        self
    }

    /// Adds a removal of `key`.
    pub fn remove(&mut self, key: Key) -> (r: &mut Self)
        ensures
            r.target() == old(self).target(),
            r.pending() == old(self).pending().push(PendingOp::Delete(key@)),
            *final(self) == *final(r),
    {
        let ghost before = self.pending();
        self.operations.push(BatchOperation::Erase(key));
        assert(self.pending() =~= before.push(PendingOp::Delete(key@)));
        self
    }

    /// Runs the operations in order, stopping at the first failure and
    /// returning its error.
    pub fn execute(self) -> (r: crate::Result<()>)
        requires
            self.target().well_formed(),
    {
        let mut backend = self.backend;
        let mut operations = self.operations;
        while operations.len() > 0
            invariant
                backend.well_formed(),
            decreases operations@.len(),
        {
            let op = operations.remove(0);
            let outcome = match op {
                BatchOperation::Insert { key, value, ttl } => backend.set(key, value, ttl),
                BatchOperation::Erase(key) => backend.remove(&key),
            };
            if let Err(e) = outcome {
                return Err(e);
            }
        }
        Ok(())
    }
}

} // verus!
