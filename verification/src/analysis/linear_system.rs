//! Shape checks of the linear systems handed to the solvers.
use vstd::prelude::*;

use crate::error::FemError;

verus! {

/// Checks that a stiffness matrix of `stiffness_rows` x `stiffness_columns` entries
/// and a load vector of `load_vector_length` entries form a solvable system: an
/// empty system is singular, and otherwise the matrix must be square with as many
/// rows as the load vector has entries.
pub fn validate_linear_system_dimensions(
    stiffness_rows: usize,
    stiffness_columns: usize,
    load_vector_length: usize,
) -> (r: Result<(), FemError>)
    ensures
        stiffness_rows == 0 && stiffness_columns == 0 && load_vector_length == 0 ==> r == Err::<(), FemError>(
            FemError::SingularSystem,
        ),
        !(stiffness_rows == 0 && stiffness_columns == 0 && load_vector_length == 0) && (stiffness_rows
            != stiffness_columns || stiffness_rows != load_vector_length) ==> r == Err::<(), FemError>(
            FemError::IncompatibleLinearSystem { stiffness_rows, stiffness_columns, load_vector_length },
        ),
        !(stiffness_rows == 0 && stiffness_columns == 0 && load_vector_length == 0) && stiffness_rows
            == stiffness_columns && stiffness_rows == load_vector_length ==> r == Ok::<(), FemError>(()),
{
    if stiffness_rows == 0 && stiffness_columns == 0 && load_vector_length == 0 {
        return Err(FemError::SingularSystem);
    }
    if stiffness_rows != stiffness_columns || stiffness_rows != load_vector_length {
        return Err(FemError::IncompatibleLinearSystem { stiffness_rows, stiffness_columns, load_vector_length });
    }
    Ok(())
}

/// Checks a Conjugate Gradient iteration limit: it must be positive.
pub fn validate_cg_max_iterations(value: usize) -> (r: Result<usize, FemError>)
    ensures
        value == 0 ==> r == Err::<usize, FemError>(FemError::InvalidSolverIterationLimit { value }),
        value > 0 ==> r == Ok::<usize, FemError>(value),
{
    if value == 0 {
        return Err(FemError::InvalidSolverIterationLimit { value });
    }
    Ok(value)
}

} // verus!
