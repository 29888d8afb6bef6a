//! Diagnostics for package-store operations.

use vstd::prelude::*;

verus! {

/// Package-layer diagnostic record.
#[derive(Clone, Debug)]
pub struct Diagnostic {
    /// Human-readable diagnostic message.
    pub message: String,
}

impl Diagnostic {
    /// Create a diagnostic from a message.
    pub fn new(message: String) -> (d: Self)
        ensures
            d.message@ == message@,
    {
        Diagnostic { message }
    }
}

} // verus!
