//! Identifier maps and reference checks of the one-dimensional bar model.
//!
//! External IDs are kept intact, and every node, material, section and element is
//! also mapped to its contiguous zero-based position in input order. For a bar
//! node, that position is also the index of its axial displacement DOF.
use vstd::prelude::*;

use std::collections::HashMap;

use crate::elements::bar_1d::BarElement1D;
use crate::error::{Entity, FemError};
use crate::model::topology::distinct_ids;

verus! {

broadcast use vstd::std_specs::hash::group_hash_axioms;

/// `map` sends every ID of `ids` to its position and holds no other key.
pub open spec fn is_index_map(map: Map<usize, usize>, ids: Seq<usize>) -> bool {
    &&& forall|i: int| 0 <= i < ids.len() ==> #[trigger] map.contains_key(ids[i]) && map[ids[i]] == i
    &&& forall|k: usize| #[trigger] map.contains_key(k) ==> ids.contains(k)
}

/// The position of the first ID that repeats an earlier one.
pub open spec fn first_repeat(ids: Seq<usize>) -> int {
    choose|j: int| 0 <= j < ids.len() && distinct_ids(ids.take(j)) && ids.take(j).contains(ids[j])
}

proof fn lemma_first_repeat(ids: Seq<usize>, j: int)
    requires
        0 <= j < ids.len(),
        distinct_ids(ids.take(j)),
        ids.take(j).contains(ids[j]),
    ensures
        first_repeat(ids) == j,
        !distinct_ids(ids),
{
    let c = first_repeat(ids);
    let p = choose|p: int| 0 <= p < j && ids.take(j)[p] == ids[j];
    assert(ids[p] == ids[j]);
    if c < j {
        let q = choose|q: int| 0 <= q < c && ids.take(c)[q] == ids[c];
        assert(ids.take(j)[q] == ids.take(j)[c]);
    } else if c > j {
        assert(ids.take(c)[p] == ids.take(c)[j]);
    }
}

/// Maps every ID to its position; fails on the first ID that repeats an earlier one.
pub fn build_index_map(entity: Entity, ids: &Vec<usize>) -> (r: Result<HashMap<usize, usize>, FemError>)
    ensures
        r is Ok <==> distinct_ids(ids@),
        r matches Ok(map) ==> is_index_map(map@, ids@),
        r is Err ==> r == Err::<HashMap<usize, usize>, FemError>(
            FemError::DuplicateId { entity, id: ids@[first_repeat(ids@)] },
        ),
{
    let mut map: HashMap<usize, usize> = HashMap::new();
    let mut i: usize = 0;
    while i < ids.len()
        invariant
            i <= ids@.len(),
            distinct_ids(ids@.take(i as int)),
            is_index_map(map@, ids@.take(i as int)),
        decreases ids@.len() - i,
    {
        let id = ids[i];
        let ghost prefix = ids@.take(i as int);
        let ghost before = map@;
        match map.insert(id, i) {
            Some(_) => {
                proof {
                    assert(prefix.contains(id));
                    lemma_first_repeat(ids@, i as int);
                }
                return Err(FemError::DuplicateId { entity, id });
            },
            None => {},
        }
        proof {
            let next = ids@.take(i + 1);
            assert(next =~= prefix.push(id));
            assert(!prefix.contains(id));
            assert forall|a: int, b: int| 0 <= a < next.len() && 0 <= b < next.len() && a != b implies next[a]
                != next[b] by {
                if a < i && b < i {
                    assert(prefix[a] != prefix[b]);
                } else if a == i {
                    assert(prefix[b] == next[b]);
                } else {
                    assert(prefix[a] == next[a]);
                }
            }
            assert forall|a: int| 0 <= a < next.len() implies #[trigger] map@.contains_key(next[a])
                && map@[next[a]] == a by {
                if a < i {
                    assert(prefix[a] == next[a]);
                    assert(before.contains_key(prefix[a]));
                }
            }
            assert forall|k: usize| #[trigger] map@.contains_key(k) implies next.contains(k) by {
                if k == id {
                    assert(next[i as int] == id);
                } else {
                    assert(before.contains_key(k));
                    let p = choose|p: int| 0 <= p < prefix.len() && prefix[p] == k;
                    assert(next[p] == k);
                }
            }
        }
        i += 1;
    }
    assert(ids@.take(ids@.len() as int) =~= ids@);
    Ok(map)
}

/// Looks up the position of an ID.
pub fn lookup_index(map: &HashMap<usize, usize>, entity: Entity, id: usize) -> (r: Result<usize, FemError>)
    ensures
        map@.contains_key(id) ==> r == Ok::<usize, FemError>(map@[id]),
        !map@.contains_key(id) ==> r == Err::<usize, FemError>(FemError::UnknownId { entity, id }),
{
    match map.get(&id) {
        Some(index) => Ok(*index),
        None => Err(FemError::UnknownId { entity, id }),
    }
}

/// The error for an element whose reference is missing, or none when all its
/// references resolve. Nodes are checked first, in order, then the material, then the section.
pub open spec fn element_reference_error(
    element: BarElement1D,
    nodes: Map<usize, usize>,
    materials: Map<usize, usize>,
    sections: Map<usize, usize>,
) -> Option<FemError> {
    let node_ids = element.spec_node_ids();
    if !nodes.contains_key(node_ids[0]) {
        Some(invalid_reference(element.spec_id(), Entity::Node, node_ids[0]))
    } else if !nodes.contains_key(node_ids[1]) {
        Some(invalid_reference(element.spec_id(), Entity::Node, node_ids[1]))
    } else if !materials.contains_key(element.spec_material_id()) {
        Some(invalid_reference(element.spec_id(), Entity::Material, element.spec_material_id()))
    } else if !sections.contains_key(element.spec_section_id()) {
        Some(invalid_reference(element.spec_id(), Entity::Section, element.spec_section_id()))
    } else {
        None
    }
}

/// An element's reference to a missing entity.
pub open spec fn invalid_reference(element_id: usize, entity: Entity, id: usize) -> FemError {
    FemError::InvalidReference {
        owner_entity: Entity::Element,
        owner_id: element_id,
        referenced_entity: entity,
        referenced_id: id,
    }
}

/// The first element (in order) with a missing reference.
pub open spec fn first_bad_element(
    elements: Seq<BarElement1D>,
    nodes: Map<usize, usize>,
    materials: Map<usize, usize>,
    sections: Map<usize, usize>,
) -> int {
    choose|k: int|
        0 <= k < elements.len() && element_reference_error(elements[k], nodes, materials, sections)
            is Some && forall|j: int|
            0 <= j < k ==> element_reference_error(#[trigger] elements[j], nodes, materials, sections)
                is None
}

/// Checks that every element references existing nodes, a material and a section.
pub fn validate_element_references(
    elements: &Vec<BarElement1D>,
    node_id_to_index: &HashMap<usize, usize>,
    material_id_to_index: &HashMap<usize, usize>,
    section_id_to_index: &HashMap<usize, usize>,
) -> (r: Result<(), FemError>)
    ensures
        r is Ok <==> forall|k: int|
            0 <= k < elements@.len() ==> element_reference_error(
                #[trigger] elements@[k],
                node_id_to_index@,
                material_id_to_index@,
                section_id_to_index@,
            ) is None,
        r is Err ==> r == Err::<(), FemError>(
            element_reference_error(
                elements@[first_bad_element(
                    elements@,
                    node_id_to_index@,
                    material_id_to_index@,
                    section_id_to_index@,
                )],
                node_id_to_index@,
                material_id_to_index@,
                section_id_to_index@,
            )->0,
        ),
{
    let ghost nodes = node_id_to_index@;
    let ghost materials = material_id_to_index@;
    let ghost sections = section_id_to_index@;
    let mut k: usize = 0;
    while k < elements.len()
        invariant
            k <= elements@.len(),
            nodes == node_id_to_index@,
            materials == material_id_to_index@,
            sections == section_id_to_index@,
            forall|j: int|
                0 <= j < k ==> element_reference_error(#[trigger] elements@[j], nodes, materials, sections)
                    is None,
        decreases elements@.len() - k,
    {
        let element = &elements[k];
        let node_ids = element.node_ids();
        let mut error: Option<FemError> = None;
        if !node_id_to_index.contains_key(&node_ids[0]) {
            error = Some(FemError::InvalidReference {
                owner_entity: Entity::Element,
                owner_id: element.id(),
                referenced_entity: Entity::Node,
                referenced_id: node_ids[0],
            });
        } else if !node_id_to_index.contains_key(&node_ids[1]) {
            error = Some(FemError::InvalidReference {
                owner_entity: Entity::Element,
                owner_id: element.id(),
                referenced_entity: Entity::Node,
                referenced_id: node_ids[1],
            });
        } else if !material_id_to_index.contains_key(&element.material_id()) {
            error = Some(FemError::InvalidReference {
                owner_entity: Entity::Element,
                owner_id: element.id(),
                referenced_entity: Entity::Material,
                referenced_id: element.material_id(),
            });
        } else if !section_id_to_index.contains_key(&element.section_id()) {
            error = Some(FemError::InvalidReference {
                owner_entity: Entity::Element,
                owner_id: element.id(),
                referenced_entity: Entity::Section,
                referenced_id: element.section_id(),
            });
        }
        assert(error == element_reference_error(elements@[k as int], nodes, materials, sections));
        match error {
            Some(e) => {
                proof {
                    let c = first_bad_element(elements@, nodes, materials, sections);
                    if c < k {
                        assert(element_reference_error(elements@[c], nodes, materials, sections) is None);
                    } else if c > k {
                        assert(element_reference_error(elements@[k as int], nodes, materials, sections)
                            is None);
                    }
                }
                return Err(e);
            },
            None => {},
        }
        k += 1;
    }
    Ok(())
}

/// The first position whose node ID is not a key of `nodes`.
pub open spec fn first_unknown(node_ids: Seq<usize>, nodes: Map<usize, usize>) -> int {
    choose|k: int|
        0 <= k < node_ids.len() && !nodes.contains_key(node_ids[k]) && forall|j: int|
            0 <= j < k ==> nodes.contains_key(#[trigger] node_ids[j])
}

/// Checks that every referenced node exists; the error names `owner` and the node.
fn validate_node_references(owner: Entity, node_ids: &Vec<usize>, node_id_to_index: &HashMap<usize, usize>) -> (r:
    Result<(), FemError>)
    ensures
        r is Ok <==> forall|k: int| 0 <= k < node_ids@.len() ==> node_id_to_index@.contains_key(#[trigger] node_ids@[k]),
        r is Err ==> r == Err::<(), FemError>(
            FemError::InvalidReference {
                owner_entity: owner,
                owner_id: node_ids@[first_unknown(node_ids@, node_id_to_index@)],
                referenced_entity: Entity::Node,
                referenced_id: node_ids@[first_unknown(node_ids@, node_id_to_index@)],
            },
        ),
{
    let mut k: usize = 0;
    while k < node_ids.len()
        invariant
            k <= node_ids@.len(),
            forall|j: int| 0 <= j < k ==> node_id_to_index@.contains_key(#[trigger] node_ids@[j]),
        decreases node_ids@.len() - k,
    {
        let node_id = node_ids[k];
        if !node_id_to_index.contains_key(&node_id) {
            proof {
                let c = first_unknown(node_ids@, node_id_to_index@);
                if c < k {
                    assert(node_id_to_index@.contains_key(node_ids@[c]));
                } else if c > k {
                    assert(node_id_to_index@.contains_key(node_ids@[k as int]));
                }
            }
            return Err(FemError::InvalidReference {
                owner_entity: owner,
                owner_id: node_id,
                referenced_entity: Entity::Node,
                referenced_id: node_id,
            });
        }
        k += 1;
    }
    Ok(())
}

/// Checks that every nodal load is applied to an existing node; `load_node_ids` are
/// the loaded nodes in load order.
pub fn validate_load_references(load_node_ids: &Vec<usize>, node_id_to_index: &HashMap<usize, usize>) -> (r:
    Result<(), FemError>)
    ensures
        r is Ok <==> forall|k: int|
            0 <= k < load_node_ids@.len() ==> node_id_to_index@.contains_key(#[trigger] load_node_ids@[k]),
        r is Err ==> r == Err::<(), FemError>(
            FemError::InvalidReference {
                owner_entity: Entity::NodalLoad,
                owner_id: load_node_ids@[first_unknown(load_node_ids@, node_id_to_index@)],
                referenced_entity: Entity::Node,
                referenced_id: load_node_ids@[first_unknown(load_node_ids@, node_id_to_index@)],
            },
        ),
{
    validate_node_references(Entity::NodalLoad, load_node_ids, node_id_to_index)
}

/// Checks that every displacement constraint targets an existing node;
/// `constraint_node_ids` are the constrained nodes in constraint order.
pub fn validate_constraint_references(
    constraint_node_ids: &Vec<usize>,
    node_id_to_index: &HashMap<usize, usize>,
) -> (r: Result<(), FemError>)
    ensures
        r is Ok <==> forall|k: int|
            0 <= k < constraint_node_ids@.len() ==> node_id_to_index@.contains_key(
                #[trigger] constraint_node_ids@[k],
            ),
        r is Err ==> r == Err::<(), FemError>(
            FemError::InvalidReference {
                owner_entity: Entity::DisplacementConstraint,
                owner_id: constraint_node_ids@[first_unknown(constraint_node_ids@, node_id_to_index@)],
                referenced_entity: Entity::Node,
                referenced_id: constraint_node_ids@[first_unknown(constraint_node_ids@, node_id_to_index@)],
            },
        ),
{
    validate_node_references(Entity::DisplacementConstraint, constraint_node_ids, node_id_to_index)
}

/// Returns the global DOF indices `[u1, u2]` of the element with ID `element_id`: the
/// positions of its two nodes.
pub fn element_dof_indices(
    elements: &Vec<BarElement1D>,
    element_id_to_index: &HashMap<usize, usize>,
    node_id_to_index: &HashMap<usize, usize>,
    element_id: usize,
) -> (r: Result<[usize; 2], FemError>)
    ensures
        !element_id_to_index@.contains_key(element_id) || element_id_to_index@[element_id] >= elements@.len()
            ==> r == Err::<[usize; 2], FemError>(FemError::UnknownId { entity: Entity::Element, id: element_id }),
        element_id_to_index@.contains_key(element_id) && element_id_to_index@[element_id] < elements@.len()
            ==> {
            let nodes = elements@[element_id_to_index@[element_id] as int].spec_node_ids();
            &&& !node_id_to_index@.contains_key(nodes[0]) ==> r == Err::<[usize; 2], FemError>(
                FemError::UnknownId { entity: Entity::Node, id: nodes[0] },
            )
            &&& node_id_to_index@.contains_key(nodes[0]) && !node_id_to_index@.contains_key(nodes[1]) ==> r
                == Err::<[usize; 2], FemError>(FemError::UnknownId { entity: Entity::Node, id: nodes[1] })
            &&& node_id_to_index@.contains_key(nodes[0]) && node_id_to_index@.contains_key(nodes[1]) ==> (r matches Ok(
                indices,
            ) && indices[0] == node_id_to_index@[nodes[0]] && indices[1] == node_id_to_index@[nodes[1]])
        },
{
    let element_index = lookup_index(element_id_to_index, Entity::Element, element_id)?;
    if element_index >= elements.len() {
        return Err(FemError::UnknownId { entity: Entity::Element, id: element_id });
    }
    let node_ids = elements[element_index].local_dof_node_ids();
    let first = lookup_index(node_id_to_index, Entity::Node, node_ids[0])?;
    let second = lookup_index(node_id_to_index, Entity::Node, node_ids[1])?;
    Ok([first, second])
}

} // verus!
