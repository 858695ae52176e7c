//! Function-level memoization support: an in-memory cache engine with
//! time-to-live expiry, capacity bounds enforced through pluggable eviction
//! policies (LRU, LFU), and operation metrics.
use vstd::prelude::*;

pub mod backends;
pub mod clock;
pub mod error;
pub mod eviction;
pub mod invalidation;
pub mod key_derivation;
pub mod metrics;
pub mod optimization;
pub mod serialization;
pub mod sharded;

pub use backends::memory::MemoryBackend;
pub use error::Error as FncacheError;

verus! {

/// Result type used throughout the crate.
pub type Result<T> = core::result::Result<T, error::Error>;

} // verus!
