//! The storage contract every cache backend meets, and the in-memory engine.
use std::time::Duration;
use vstd::prelude::*;

pub mod memory;

verus! {

/// A cache key: an opaque text that identifies one function call.
pub type Key = String;

/// A cached value: the serialized result, as bytes.
pub type Value = Vec<u8>;

/// The five operations every cache backend offers.
pub trait CacheBackend {
    /// Whether the backend's internal bookkeeping is consistent.
    spec fn well_formed(&self) -> bool;

    /// The value stored under `key`, if any that has not expired.
    fn get(&mut self, key: &Key) -> (r: crate::Result<Option<Value>>)
        requires
            old(self).well_formed(),
        ensures
            final(self).well_formed(),
    ;

    /// Stores `value` under `key`, to expire after `ttl` when one is given.
    fn set(&mut self, key: Key, value: Value, ttl: Option<Duration>) -> (r: crate::Result<()>)
        requires
            old(self).well_formed(),
        ensures
            final(self).well_formed(),
    ;

    /// Removes `key` and its value; removing an absent key succeeds.
    fn remove(&mut self, key: &Key) -> (r: crate::Result<()>)
        requires
            old(self).well_formed(),
        ensures
            final(self).well_formed(),
    ;

    /// Whether a value that has not expired is stored under `key`.
    fn contains_key(&mut self, key: &Key) -> (r: crate::Result<bool>)
        requires
            old(self).well_formed(),
        ensures
            final(self).well_formed(),
    ;

    /// Removes every key and value.
    fn clear(&mut self) -> (r: crate::Result<()>)
        requires
            old(self).well_formed(),
        ensures
            final(self).well_formed(),
    ;
}

} // verus!
