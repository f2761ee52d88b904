use rusty_fem::elements::{Element2D, Truss2D};
use rusty_fem::error::Entity;
use rusty_fem::model::{ModelTopology2D, SectionKind, DEFAULT_MATERIAL_ID};
use rusty_fem::FemError;

#[test]
fn creates_empty_materials() {
    let model = ModelTopology2D::new();

    assert!(model.material_ids().is_empty());
    assert!(model.material_index(DEFAULT_MATERIAL_ID).is_err());
}

#[test]
fn stores_default_material() {
    let mut model = ModelTopology2D::new();

    model.set_default_material();

    assert_eq!(model.material_index(DEFAULT_MATERIAL_ID), Ok(0));
}

#[test]
fn replaces_default_material() {
    let mut model = ModelTopology2D::new();

    model.add_material(10).unwrap();
    model.set_default_material();
    model.set_default_material();

    assert_eq!(model.material_ids(), &vec![10, DEFAULT_MATERIAL_ID]);
}

#[test]
fn stores_materials_in_insertion_order() {
    let mut model = ModelTopology2D::new();

    model.add_material(10).expect("steel should be added");
    model.add_material(20).expect("aluminium should be added");

    assert_eq!(model.material_ids(), &vec![10, 20]);
    assert_eq!(model.material_index(10), Ok(0));
    assert_eq!(model.material_index(20), Ok(1));
}

#[test]
fn rejects_duplicate_material_ids() {
    let mut model = ModelTopology2D::new();

    model.add_material(10).expect("first material should be added");
    let result = model.add_material(10);

    assert!(matches!(result, Err(FemError::DuplicateId { entity: Entity::Material, id: 10 })));
}

#[test]
fn rejects_unknown_material_ids() {
    let model = ModelTopology2D::new();

    assert!(matches!(model.material_index(99), Err(FemError::UnknownId { entity: Entity::Material, id: 99 })));
}

#[test]
fn creates_empty_sections() {
    assert!(ModelTopology2D::new().sections().is_empty());
}

#[test]
fn stores_sections_in_insertion_order() {
    let mut model = ModelTopology2D::new();

    model.add_section(10, SectionKind::Truss).expect("section should be added");
    model.add_section(20, SectionKind::Beam).expect("section should be added");

    assert_eq!(model.sections(), &vec![(10, SectionKind::Truss), (20, SectionKind::Beam)]);
    assert_eq!(model.section(10), Ok(SectionKind::Truss));
    assert_eq!(model.section(20), Ok(SectionKind::Beam));
    assert_eq!(model.section_index(20), Ok(1));
}

#[test]
fn rejects_duplicate_section_ids() {
    let mut model = ModelTopology2D::new();

    model.add_section(10, SectionKind::Truss).expect("section should be added");
    let result = model.add_section(10, SectionKind::PlaneStress);

    assert!(matches!(result, Err(FemError::DuplicateId { entity: Entity::Section, id: 10 })));
}

#[test]
fn rejects_unknown_section_ids() {
    let model = ModelTopology2D::new();

    assert!(matches!(model.section(99), Err(FemError::UnknownId { entity: Entity::Section, id: 99 })));
}

#[test]
fn creates_empty_mesh() {
    let model = ModelTopology2D::new();

    assert!(model.node_ids().is_empty());
    assert!(model.elements().is_empty());
}

#[test]
fn stores_nodes_in_insertion_order() {
    let mut model = ModelTopology2D::new();

    model.add_node(10).unwrap();
    model.add_node(20).unwrap();

    assert_eq!(model.node_ids(), &vec![10, 20]);
}

#[test]
fn finds_node_by_id() {
    let mut model = ModelTopology2D::new();

    model.add_node(10).unwrap();

    assert_eq!(model.node_index(10), Ok(0));
    assert_eq!(model.node_index(99), Err(FemError::UnknownId { entity: Entity::Node, id: 99 }));
}

#[test]
fn reports_existing_node_ids() {
    let mut model = ModelTopology2D::new();

    model.add_node(10).unwrap();

    assert!(model.contains_node_id(10));
    assert!(!model.contains_node_id(99));
}

fn truss_model() -> ModelTopology2D {
    let mut model = ModelTopology2D::new();
    for id in [1, 2, 3] {
        model.add_node(id).unwrap();
    }
    model.add_material(1).unwrap();
    model.add_section(10, SectionKind::Truss).unwrap();
    model.add_section(20, SectionKind::Truss).unwrap();
    model
}

#[test]
fn stores_elements_in_insertion_order() {
    let mut model = truss_model();

    let first = Element2D::Truss(Truss2D::new(100, [1, 2], 1, 10).expect("valid truss"));
    let second = Element2D::Truss(Truss2D::new(200, [2, 3], 1, 20).expect("valid truss"));

    model.add_element(first).unwrap();
    model.add_element(second).unwrap();

    assert_eq!(model.elements(), &vec![first, second]);
}

#[test]
fn finds_element_by_id() {
    let mut model = truss_model();

    let element = Element2D::Truss(Truss2D::new(100, [1, 2], 1, 10).expect("valid truss"));

    model.add_element(element).unwrap();

    assert_eq!(model.element_index(100), Some(0));
    assert!(model.element_index(999).is_none());
}

#[test]
fn reports_existing_element_ids() {
    let mut model = truss_model();

    let element = Element2D::Truss(Truss2D::new(100, [1, 2], 1, 10).expect("valid truss"));

    model.add_element(element).unwrap();

    assert!(model.contains_element_id(100));
    assert!(!model.contains_element_id(999));
}
