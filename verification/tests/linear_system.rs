use rusty_fem::analysis::linear_system::{validate_cg_max_iterations, validate_linear_system_dimensions};
use rusty_fem::FemError;

#[test]
fn empty_system_is_singular() {
    assert_eq!(validate_linear_system_dimensions(0, 0, 0), Err(FemError::SingularSystem));
    assert_eq!(FemError::SingularSystem.message(), "the stiffness matrix is singular");
}

#[test]
fn rejects_incompatible_system_dimensions() {
    let error = FemError::IncompatibleLinearSystem { stiffness_rows: 2, stiffness_columns: 2, load_vector_length: 3 };

    assert_eq!(validate_linear_system_dimensions(2, 2, 3), Err(error.clone()));
    assert_eq!(
        error.message(),
        "linear system has incompatible dimensions: stiffness matrix is 2x2, load vector has length 3"
    );
    assert_eq!(
        validate_linear_system_dimensions(2, 3, 2),
        Err(FemError::IncompatibleLinearSystem { stiffness_rows: 2, stiffness_columns: 3, load_vector_length: 2 })
    );
    assert_eq!(validate_linear_system_dimensions(3, 3, 3), Ok(()));
}

#[test]
fn rejects_invalid_iteration_limit() {
    assert_eq!(validate_cg_max_iterations(0), Err(FemError::InvalidSolverIterationLimit { value: 0 }));
    assert_eq!(validate_cg_max_iterations(250), Ok(250));
    assert_eq!(
        FemError::InvalidSolverIterationLimit { value: 0 }.message(),
        "conjugate gradient iteration limit must be positive: 0"
    );
}
