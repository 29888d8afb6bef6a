//! Package identity.

use vstd::prelude::*;

verus! {

/// Package identifier.
#[derive(Clone, Debug, PartialEq, Eq)]
pub struct PackageId {
    /// Canonical package name.
    pub name: String,
}

impl PackageId {
    /// Create a package identifier.
    pub fn new(name: String) -> (id: Self)
        ensures
            id.name@ == name@,
    {
        Self { name }
    }
}

} // verus!
