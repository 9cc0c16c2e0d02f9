//! How a batch is scheduled, and which operator it applies.
use vstd::prelude::*;

verus! {

/// How a batch of operations is scheduled.
#[derive(Clone, Copy, Debug, PartialEq, Eq, Structural)]
pub enum ExecutionMode {
    /// Positions are spread over a pool of worker threads.
    Parallel,
    /// Positions are handled one after the other on the calling thread.
    SingleThreaded,
}

/// One of the four arithmetic operators.
#[derive(Clone, Copy, Debug, PartialEq, Eq, Structural)]
pub enum Operator {
    Add,
    Sub,
    Mul,
    Div,
}

} // verus!
