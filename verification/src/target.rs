//! Package target metadata.

use vstd::prelude::*;

verus! {

/// Target identifier known to package metadata.
#[derive(Clone, Debug)]
pub struct TargetId {
    /// Target name, such as `rust`.
    pub name: String,
}

impl TargetId {
    /// Create a target identifier.
    pub fn new(name: String) -> (t: Self)
        ensures
            t.name@ == name@,
    {
        TargetId { name }
    }
}

} // verus!
