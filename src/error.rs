//! Error type of the cache.
use vstd::prelude::*;

verus! {

/// Errors that cache operations and the layers above them may report.
#[derive(Debug, PartialEq, Eq)]
pub enum Error {
    /// Serialization or deserialization failed.
    Codec(String),
    /// The requested key was not in the cache.
    CacheMiss,
    /// The underlying storage medium failed.
    Backend(String),
    /// The process-wide cache was set up twice.
    AlreadyInitialized,
    /// The requested feature is not available.
    NotImplemented(String),
    /// Any other failure.
    Other(String),
}

impl Error {
    /// A storage failure carrying the given description.
    pub fn backend(error: String) -> (r: Self)
        ensures
            r == Error::Backend(error),
    {
        Error::Backend(error)
    }

    /// A miscellaneous failure carrying the given description.
    pub fn other(error: String) -> (r: Self)
        ensures
            r == Error::Other(error),
    {
        Error::Other(error)
    }
}

} // verus!
