//! Whether a write changed anything.

use vstd::prelude::*;

verus! {

/// Outcome of an idempotent write: whether it had to change the resource.
#[derive(Debug, Clone, Copy, PartialEq, Eq, PartialOrd, Ord, Structural)]
pub enum Effect {
    /// The resource already held the desired value.
    Unchanged,
    /// The resource was updated.
    Changed,
}

impl Effect {
    /// Whether the write changed the resource.
    pub fn changed(&self) -> (r: bool)
        ensures
            r == (*self == Effect::Changed),
    {
        match self {
            Effect::Changed => true,
            Effect::Unchanged => false,
        }
    }
}

} // verus!
