use rusty_fem::elements::{Beam2D, Element2D, TriangleT3, Truss2D};
use rusty_fem::error::Entity;
use rusty_fem::model::{Dof2D, DofNumbering2D, ModelTopology2D, SectionKind, DEFAULT_MATERIAL_ID};
use rusty_fem::FemError;

fn topology_with_nodes(node_ids: &[usize]) -> ModelTopology2D {
    let mut model = ModelTopology2D::new();
    for &id in node_ids {
        model.add_node(id).expect("node should be added");
    }
    model
}

#[test]
fn creates_empty_model() {
    let model = ModelTopology2D::new();

    assert!(model.node_ids().is_empty());
    assert!(model.constraints().is_empty());
    assert!(model.elements().is_empty());
    assert!(model.sections().is_empty());
    assert!(model.material_ids().is_empty());
}

#[test]
fn rejects_duplicate_node_id() {
    let mut model = ModelTopology2D::new();

    model.add_node(10).expect("first node should be added");

    let result = model.add_node(10);

    assert!(matches!(result, Err(FemError::DuplicateId { entity: Entity::Node, id: 10 })));

    assert_eq!(model.node_ids().len(), 1);
}

#[test]
fn adds_constraint_for_existing_node() {
    let mut model = topology_with_nodes(&[10]);

    model.add_constraint(10, Dof2D::Uy).expect("constraint should be added");

    assert_eq!(model.constraints(), &vec![(10, Dof2D::Uy)]);
}

#[test]
fn rejects_constraint_for_unknown_node() {
    let mut model = ModelTopology2D::new();

    let result = model.add_constraint(99, Dof2D::Ux);

    assert!(matches!(result, Err(FemError::UnknownId { entity: Entity::Node, id: 99 })));

    assert!(model.constraints().is_empty());
}

#[test]
fn rejects_load_for_unknown_node() {
    let mut model = ModelTopology2D::new();

    let result = model.add_load(99, Dof2D::Ux);

    assert!(matches!(result, Err(FemError::UnknownId { entity: Entity::Node, id: 99 })));
    assert!(model.loads().is_empty());
}

#[test]
fn allows_multiple_loads_on_the_same_dof() {
    let mut model = topology_with_nodes(&[7]);

    model.add_load(7, Dof2D::Ux).expect("first load should be added");
    model.add_load(7, Dof2D::Ux).expect("second load should be added");

    assert_eq!(model.loads(), &vec![(7, Dof2D::Ux), (7, Dof2D::Ux)]);
}

#[test]
fn adds_element_for_existing_nodes() {
    let mut model = topology_with_nodes(&[1, 2]);
    model.set_default_material();

    let truss = Truss2D::new(10, [1, 2], DEFAULT_MATERIAL_ID, 100).expect("valid truss should be created");
    let element = Element2D::Truss(truss);

    model.add_element_with_section(element, SectionKind::Truss).expect("element should be added");

    assert_eq!(model.elements().len(), 1);
    assert_eq!(model.elements()[0].id(), 10);
    assert_eq!(model.elements()[0].node_ids(), &[1, 2]);
    assert_eq!(model.elements()[0].material_id(), DEFAULT_MATERIAL_ID);
    assert_eq!(model.elements()[0].section_id(), 100);
    assert_eq!(model.section(100), Ok(SectionKind::Truss));
}

#[test]
fn rejects_element_for_unknown_material() {
    let mut model = topology_with_nodes(&[1, 2]);

    let truss = Truss2D::new(10, [1, 2], 99, 100).expect("valid truss should be created");
    let result = model.add_element_with_section(Element2D::Truss(truss), SectionKind::Truss);

    assert!(matches!(result, Err(FemError::UnknownId { entity: Entity::Material, id: 99 })));
    assert!(model.elements().is_empty());
    assert!(model.sections().is_empty());
}

#[test]
fn rejects_element_for_unknown_node() {
    let mut model = topology_with_nodes(&[1]);
    model.set_default_material();
    model.add_section(100, SectionKind::Truss).expect("section should be added");

    let element =
        Element2D::Truss(Truss2D::new(10, [1, 99], DEFAULT_MATERIAL_ID, 100).expect("valid truss should be created"));

    let result = model.add_element(element);

    assert!(matches!(result, Err(FemError::UnknownId { entity: Entity::Node, id: 99 })));

    assert!(model.elements().is_empty());
}

#[test]
fn rejects_duplicate_element_id() {
    let mut model = topology_with_nodes(&[1, 2, 3]);
    model.set_default_material();
    model.add_section(100, SectionKind::Truss).expect("section should be added");

    let first = Element2D::Truss(Truss2D::new(10, [1, 2], DEFAULT_MATERIAL_ID, 100).unwrap());
    let second = Element2D::Truss(Truss2D::new(10, [2, 3], DEFAULT_MATERIAL_ID, 100).unwrap());

    model.add_element(first).expect("first element should be added");

    assert_eq!(model.add_element(second), Err(FemError::DuplicateId { entity: Entity::Element, id: 10 }));
    assert_eq!(model.elements().len(), 1);
}

#[test]
fn rejects_element_with_section_of_the_wrong_kind() {
    let mut model = topology_with_nodes(&[1, 2]);
    model.set_default_material();
    model.add_section(5, SectionKind::Truss).expect("section should be added");

    let beam = Element2D::Beam(Beam2D::new(1, [1, 2], DEFAULT_MATERIAL_ID, 5).unwrap());

    assert_eq!(
        model.add_element(beam),
        Err(FemError::InvalidSectionType { section_id: 5, expected: SectionKind::Beam, actual: SectionKind::Truss })
    );
    assert_eq!(model.add_section(5, SectionKind::Beam), Err(FemError::DuplicateId { entity: Entity::Section, id: 5 }));
}

#[test]
fn rejects_unknown_section_and_material_lookups() {
    let model = ModelTopology2D::new();

    assert_eq!(model.section(3), Err(FemError::UnknownId { entity: Entity::Section, id: 3 }));
    assert_eq!(model.material_index(4), Err(FemError::UnknownId { entity: Entity::Material, id: 4 }));
    assert_eq!(model.node_index(5), Err(FemError::UnknownId { entity: Entity::Node, id: 5 }));
}

#[test]
fn replaces_existing_material() {
    let mut model = ModelTopology2D::new();

    model.set_default_material();
    model.set_default_material();

    assert_eq!(model.material_ids(), &vec![DEFAULT_MATERIAL_ID]);
    assert_eq!(model.add_material(DEFAULT_MATERIAL_ID), Err(FemError::DuplicateId { entity: Entity::Material, id: 0 }));
}

fn beam_model() -> ModelTopology2D {
    let mut model = topology_with_nodes(&[10, 20]);
    model.set_default_material();
    let beam = Beam2D::new(1, [10, 20], DEFAULT_MATERIAL_ID, 1).expect("valid beam");
    model.add_element_with_section(Element2D::Beam(beam), SectionKind::Beam).expect("element should be added");
    model
}

#[test]
fn numbers_beam_degrees_of_freedom() {
    let model = beam_model();

    let numbering = DofNumbering2D::from_model(&model).expect("numbering should be created");

    assert_eq!(numbering.count(), 6);

    assert_eq!(numbering.index(10, Dof2D::Ux).unwrap(), 0);
    assert_eq!(numbering.index(10, Dof2D::Uy).unwrap(), 1);
    assert_eq!(numbering.index(10, Dof2D::Rz).unwrap(), 2);

    assert_eq!(numbering.index(20, Dof2D::Ux).unwrap(), 3);
    assert_eq!(numbering.index(20, Dof2D::Uy).unwrap(), 4);
    assert_eq!(numbering.index(20, Dof2D::Rz).unwrap(), 5);
}

#[test]
fn maps_local_dofs_for_every_element_type() {
    let cases = [
        (
            "truss",
            Element2D::Truss(Truss2D::new(1, [10, 20], DEFAULT_MATERIAL_ID, 1).expect("valid truss should be created")),
            SectionKind::Truss,
            vec![0, 1, 2, 3],
        ),
        (
            "beam",
            Element2D::Beam(Beam2D::new(2, [10, 20], DEFAULT_MATERIAL_ID, 1).expect("valid beam should be created")),
            SectionKind::Beam,
            vec![0, 1, 2, 3, 4, 5],
        ),
        (
            "triangle_t3",
            Element2D::TriangleT3(
                TriangleT3::new(3, [10, 20, 30], DEFAULT_MATERIAL_ID, 1).expect("valid triangle should be created"),
            ),
            SectionKind::PlaneStress,
            vec![0, 1, 2, 3, 4, 5],
        ),
    ];

    for (name, element, kind, expected_indices) in cases {
        let mut model = topology_with_nodes(&[10, 20, 30]);
        model.set_default_material();

        model.add_element_with_section(element, kind).expect("element should be added");

        let numbering = DofNumbering2D::from_model(&model).expect("numbering should be created");

        let actual_indices = numbering.element_dof_indices(&element).expect("element DOFs should be mapped");

        assert_eq!(actual_indices, expected_indices, "failed case: {name}");
    }
}

#[test]
fn maps_constraints_to_global_dofs() {
    let mut model = beam_model();

    let constraints = [(10, Dof2D::Ux), (10, Dof2D::Rz), (20, Dof2D::Uy)];

    for (node_id, dof) in constraints {
        model.add_constraint(node_id, dof).expect("constraint should be added");
    }

    let numbering = DofNumbering2D::from_model(&model).expect("numbering should be created");

    let actual = numbering.constraint_dof_indices(&model).expect("constraints should be mapped");

    assert_eq!(actual, vec![0, 2, 4]);
}

#[test]
fn rejects_constraint_on_dof_that_no_element_uses() {
    let mut model = topology_with_nodes(&[10, 20, 30]);
    model.set_default_material();
    let truss = Truss2D::new(1, [10, 20], DEFAULT_MATERIAL_ID, 1).unwrap();
    model.add_element_with_section(Element2D::Truss(truss), SectionKind::Truss).unwrap();
    model.add_constraint(10, Dof2D::Rz).unwrap();

    assert!(matches!(
        DofNumbering2D::from_model(&model),
        Err(FemError::UnknownDof { node_id: 10, dof: Dof2D::Rz })
    ));
}

#[test]
fn skips_nodes_without_elements_when_numbering() {
    let mut model = topology_with_nodes(&[5, 10, 20]);
    model.set_default_material();
    let truss = Truss2D::new(1, [20, 10], DEFAULT_MATERIAL_ID, 1).unwrap();
    model.add_element_with_section(Element2D::Truss(truss), SectionKind::Truss).unwrap();

    let numbering = DofNumbering2D::from_model(&model).unwrap();

    assert_eq!(numbering.count(), 4);
    assert_eq!(numbering.index(10, Dof2D::Ux), Ok(0));
    assert_eq!(numbering.index(20, Dof2D::Uy), Ok(3));
    assert_eq!(numbering.index(5, Dof2D::Ux), Err(FemError::UnknownDof { node_id: 5, dof: Dof2D::Ux }));
    assert_eq!(numbering.element_dof_indices(&Element2D::Truss(truss)), Ok(vec![2, 3, 0, 1]));
}
