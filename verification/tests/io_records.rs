use rusty_fem::analysis::iterative_solver::CgTerminationReason;
use rusty_fem::elements::{Element2D, QuadQ8};
use rusty_fem::io::{Dof2DInput, ElementType2DInput, SolverKind2DInput, SolverTerminationReason2DOutput};
use rusty_fem::model::{Dof2D, SolverKind2D};
use rusty_fem::FemError;

#[test]
fn element_records_round_trip() {
    let element = Element2D::QuadQ8(QuadQ8::new(5, [1, 2, 3, 4, 5, 6, 7, 8], 2, 9).unwrap());
    let record = ElementType2DInput::from_element(&element);

    assert_eq!(record, ElementType2DInput::Q8 { id: 5, nodes: [1, 2, 3, 4, 5, 6, 7, 8], material: 2, section: 9 });
    assert_eq!(record.into_element(), Ok(element));
}

#[test]
fn element_records_with_repeated_nodes_are_refused() {
    let record = ElementType2DInput::T6 { id: 3, nodes: [1, 2, 3, 4, 5, 1], material: 0, section: 1 };

    assert_eq!(
        record.into_element(),
        Err(FemError::InvalidElementConnectivity { element_id: 3, node_ids: vec![1, 2, 3, 4, 5, 1] })
    );
}

#[test]
fn converts_enum_records() {
    assert_eq!(SolverKind2D::from(SolverKind2DInput::Sparse), SolverKind2D::Sparse);
    assert_eq!(SolverKind2DInput::from(SolverKind2D::Dense), SolverKind2DInput::Dense);
    assert_eq!(Dof2D::from(Dof2DInput::Rz), Dof2D::Rz);
    assert_eq!(Dof2DInput::from(Dof2D::Uy), Dof2DInput::Uy);
    assert_eq!(
        SolverTerminationReason2DOutput::from(CgTerminationReason::Stagnated),
        SolverTerminationReason2DOutput::Stagnated
    );
}
