//! The power states of a node.
use vstd::prelude::*;

verus! {

/// How much work the node takes on.
#[derive(Debug, Clone, Copy, PartialEq, Eq, Structural)]
pub enum PowerState {
    Normal,
    Conserving,
    /// Serves nobody but itself.
    Leaf,
    /// Records nothing.
    Dormant,
}

} // verus!
