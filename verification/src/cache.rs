//! Package cache configuration.

use vstd::prelude::*;

verus! {

/// Package cache configuration.
#[derive(Clone, Copy, Debug, PartialEq, Eq, Structural)]
pub struct CacheConfig {
    /// Whether cache operations may write to disk.
    pub writable: bool,
}

impl Default for CacheConfig {
    /// A writable cache.
    fn default() -> (c: Self)
        ensures
            c.writable,
    {
        CacheConfig { writable: true }
    }
}

} // verus!
