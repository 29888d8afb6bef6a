//! Package and provider resolution.

use vstd::prelude::*;
use crate::package::PackageId;

verus! {

/// Unresolved package request.
#[derive(Clone, Debug)]
pub struct PackageRequest {
    /// Requested package.
    pub package: PackageId,
}

impl PackageRequest {
    /// Create a package request.
    pub fn new(package: PackageId) -> (r: Self)
        ensures
            r.package == package,
    {
        PackageRequest { package }
    }
}

} // verus!
