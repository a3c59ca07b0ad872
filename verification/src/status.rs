use vstd::prelude::*;

verus! {

/// Execution status shared by every tree node.
///
/// `NotStarted` is a sentinel for initialization bookkeeping only: a node's
/// tick never returns it, and composites treat an observed `NotStarted`
/// from a child as a programming error, not as a recoverable failure.
#[derive(Debug, Copy, Clone, PartialEq, Eq, Structural)]
pub enum BtState {
    NotStarted,
    Running,
    Success,
    Failure,
}

} // verus!
