//! Solver selection of a 2D analysis.
use vstd::prelude::*;

verus! {

/// Selects the linear solver used for a 2D analysis.
#[derive(Debug, Clone, Copy, PartialEq, Eq, Structural)]
pub enum SolverKind2D {
    /// Solves the system with dense LU decomposition.
    Dense,
    /// Solves the system with sparse CSR storage and Conjugate Gradient.
    Sparse,
}

} // verus!
