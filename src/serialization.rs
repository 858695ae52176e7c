//! The formats that cached values are serialized in.
//!
//! The encoding itself goes through serde's traits, which the surrounding
//! application implements for these types.
use vstd::prelude::*;

verus! {

/// The compact binary format of `bincode`.
#[derive(Debug, Clone, Copy)]
pub struct BincodeSerializer;

impl BincodeSerializer {
    /// The binary format.
    pub fn new() -> Self {
        BincodeSerializer
    }
}

impl Default for BincodeSerializer {
    fn default() -> Self {
        Self::new()
    }
}

/// The JSON format of `serde_json`.
#[derive(Debug, Clone, Copy)]
pub struct JsonSerializer;

impl JsonSerializer {
    /// The JSON format.
    pub fn new() -> Self {
        JsonSerializer
    }
}

impl Default for JsonSerializer {
    fn default() -> Self {
        Self::new()
    }
}

} // verus!
