//! Plain output records of an analysis result.
use vstd::prelude::*;
use vstd::std_specs::convert::FromSpec;

use crate::analysis::iterative_solver::CgTerminationReason;

verus! {

/// Why the iterative solver stopped, in the output format.
#[derive(Debug, Clone, Copy, PartialEq, Eq, Structural)]
pub enum SolverTerminationReason2DOutput {
    Converged,
    MaxIterations,
    Stagnated,
}

/// Termination reason written to the output format.
impl From<CgTerminationReason> for SolverTerminationReason2DOutput {
    fn from(value: CgTerminationReason) -> (r: Self) {
        match value {
            CgTerminationReason::Converged => SolverTerminationReason2DOutput::Converged,
            CgTerminationReason::MaxIterations => SolverTerminationReason2DOutput::MaxIterations,
            CgTerminationReason::Stagnated => SolverTerminationReason2DOutput::Stagnated,
        }
    }
}

impl vstd::std_specs::convert::FromSpecImpl<CgTerminationReason> for SolverTerminationReason2DOutput {
    open spec fn obeys_from_spec() -> bool {
        true
    }

    open spec fn from_spec(value: CgTerminationReason) -> Self {
        match value {
            CgTerminationReason::Converged => SolverTerminationReason2DOutput::Converged,
            CgTerminationReason::MaxIterations => SolverTerminationReason2DOutput::MaxIterations,
            CgTerminationReason::Stagnated => SolverTerminationReason2DOutput::Stagnated,
        }
    }
}

/// The output names the same termination reason as the solver reports: a converged
/// solve is reported converged, one stopped by the iteration limit as such, and a
/// stagnated one as stagnated.
pub proof fn lemma_termination_reason_keeps_variant(reason: CgTerminationReason)
    ensures
        (<SolverTerminationReason2DOutput as FromSpec<CgTerminationReason>>::from_spec(reason) is Converged) <==> (
        reason is Converged),
        (<SolverTerminationReason2DOutput as FromSpec<CgTerminationReason>>::from_spec(reason) is MaxIterations)
            <==> (reason is MaxIterations),
        (<SolverTerminationReason2DOutput as FromSpec<CgTerminationReason>>::from_spec(reason) is Stagnated) <==> (
        reason is Stagnated),
{
}

} // verus!
