//! Target-native runtime binding metadata.

use vstd::prelude::*;
use crate::package::PackageId;

verus! {

/// Runtime binding identity for a package and target.
#[derive(Clone, Debug)]
pub struct RuntimeBinding {
    /// Package providing the Faber interface.
    pub package: PackageId,
    /// Target identifier such as `rust`.
    pub target: String,
}

impl RuntimeBinding {
    /// Create a runtime binding identity.
    pub fn new(package: PackageId, target: String) -> (b: Self)
        ensures
            b.package == package,
            b.target@ == target@,
    {
        RuntimeBinding { package, target }
    }
}

} // verus!
