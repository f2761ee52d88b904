use std::collections::HashMap;

use rusty_fem::elements::bar_1d::BarElement1D;
use rusty_fem::error::Entity;
use rusty_fem::model::bar_model_1d::{
    build_index_map, element_dof_indices, lookup_index, validate_constraint_references, validate_element_references,
    validate_load_references,
};
use rusty_fem::FemError;

fn element(id: usize, node_ids: [usize; 2], material_id: usize, section_id: usize) -> BarElement1D {
    BarElement1D::new(id, node_ids, material_id, section_id).unwrap()
}

fn maps() -> (HashMap<usize, usize>, HashMap<usize, usize>, HashMap<usize, usize>) {
    (
        build_index_map(Entity::Node, &vec![10, 40]).unwrap(),
        build_index_map(Entity::Material, &vec![7]).unwrap(),
        build_index_map(Entity::Section, &vec![3]).unwrap(),
    )
}

#[test]
fn maps_external_node_ids_to_contiguous_dofs_in_input_order() {
    let nodes = build_index_map(Entity::Node, &vec![10, 40, 99]).unwrap();

    assert_eq!(nodes.len(), 3);
    assert_eq!(lookup_index(&nodes, Entity::Node, 10).unwrap(), 0);
    assert_eq!(lookup_index(&nodes, Entity::Node, 40).unwrap(), 1);
    assert_eq!(lookup_index(&nodes, Entity::Node, 99).unwrap(), 2);
}

#[test]
fn rejects_duplicate_node_ids() {
    let error = build_index_map(Entity::Node, &vec![10, 10]).unwrap_err();

    assert_eq!(error, FemError::DuplicateId { entity: Entity::Node, id: 10 });
}

#[test]
fn rejects_duplicate_element_ids() {
    let error = build_index_map(Entity::Element, &vec![20, 20]).unwrap_err();

    assert_eq!(error, FemError::DuplicateId { entity: Entity::Element, id: 20 });
}

#[test]
fn rejects_element_with_missing_node() {
    let (nodes, materials, sections) = maps();
    let error = validate_element_references(&vec![element(20, [40, 99], 7, 3)], &nodes, &materials, &sections)
        .unwrap_err();

    assert_eq!(
        error,
        FemError::InvalidReference {
            owner_entity: Entity::Element,
            owner_id: 20,
            referenced_entity: Entity::Node,
            referenced_id: 99,
        }
    );
}

#[test]
fn rejects_element_with_missing_material() {
    let (nodes, materials, sections) = maps();
    let error = validate_element_references(&vec![element(20, [10, 40], 99, 3)], &nodes, &materials, &sections)
        .unwrap_err();

    assert_eq!(
        error,
        FemError::InvalidReference {
            owner_entity: Entity::Element,
            owner_id: 20,
            referenced_entity: Entity::Material,
            referenced_id: 99,
        }
    );
}

#[test]
fn rejects_element_with_missing_section() {
    let (nodes, materials, sections) = maps();
    let error = validate_element_references(&vec![element(20, [10, 40], 7, 99)], &nodes, &materials, &sections)
        .unwrap_err();

    assert_eq!(
        error,
        FemError::InvalidReference {
            owner_entity: Entity::Element,
            owner_id: 20,
            referenced_entity: Entity::Section,
            referenced_id: 99,
        }
    );
}

#[test]
fn accepts_elements_with_known_references() {
    let (nodes, materials, sections) = maps();

    assert_eq!(validate_element_references(&vec![element(20, [10, 40], 7, 3)], &nodes, &materials, &sections), Ok(()));
}

#[test]
fn rejects_load_with_missing_node() {
    let (nodes, _, _) = maps();
    let error = validate_load_references(&vec![10, 99], &nodes).unwrap_err();

    assert_eq!(
        error,
        FemError::InvalidReference {
            owner_entity: Entity::NodalLoad,
            owner_id: 99,
            referenced_entity: Entity::Node,
            referenced_id: 99,
        }
    );
}

#[test]
fn rejects_constraint_with_missing_node() {
    let (nodes, _, _) = maps();
    let error = validate_constraint_references(&vec![99], &nodes).unwrap_err();

    assert_eq!(
        error,
        FemError::InvalidReference {
            owner_entity: Entity::DisplacementConstraint,
            owner_id: 99,
            referenced_entity: Entity::Node,
            referenced_id: 99,
        }
    );
}

#[test]
fn returns_unknown_id_when_dof_lookup_misses() {
    let (nodes, _, _) = maps();

    assert_eq!(lookup_index(&nodes, Entity::Node, 99), Err(FemError::UnknownId { entity: Entity::Node, id: 99 }));
}

#[test]
fn maps_element_dofs_to_node_positions() {
    let nodes = build_index_map(Entity::Node, &vec![10, 40, 99]).unwrap();
    let elements = vec![element(20, [40, 99], 7, 3), element(21, [99, 10], 7, 3)];
    let element_map = build_index_map(Entity::Element, &vec![20, 21]).unwrap();

    assert_eq!(element_dof_indices(&elements, &element_map, &nodes, 20), Ok([1, 2]));
    assert_eq!(element_dof_indices(&elements, &element_map, &nodes, 21), Ok([2, 0]));
    assert_eq!(
        element_dof_indices(&elements, &element_map, &nodes, 22),
        Err(FemError::UnknownId { entity: Entity::Element, id: 22 })
    );
}
