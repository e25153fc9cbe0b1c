//! Capability probing — the feature-flag matrix of the running system.
//!
//! Determined once when the service starts and shared read-only. Modules
//! ask `Caps` and never detect versions on their own. It is an empty
//! carrier for now; fields will come with the version checks.

use vstd::prelude::*;

verus! {

/// What the current system can do. Empty for now.
#[derive(Debug, Clone, Copy, Default, PartialEq, Eq)]
pub struct Caps {}

/// Builds `Caps` by probing the running system; there is nothing to
/// probe yet.
pub fn probe() -> (r: Caps)
    ensures
        r == (Caps {}),
{
    Caps {}
}

} // verus!
