//! Outcomes of the conjugate gradient solver.
use vstd::prelude::*;

verus! {

/// Why the conjugate gradient iteration stopped.
#[derive(Debug, Clone, Copy, PartialEq, Eq, Structural)]
pub enum CgTerminationReason {
    /// The relative residual fell below the tolerance.
    Converged,
    /// The iteration limit was reached first.
    MaxIterations,
    /// The residual stopped improving for the configured number of iterations.
    Stagnated,
}

} // verus!
