//! Errors reported by the model, element and input layers.
use vstd::prelude::*;

use crate::model::dof::{dof_name, Dof2D};
use crate::model::sections::{section_kind_name, SectionKind};
use crate::text::{append_decimal, decimal};

verus! {

/// Kinds of model entities named in error reports.
#[derive(Debug, Clone, Copy, PartialEq, Eq, Structural)]
pub enum Entity {
    Node,
    Element,
    Material,
    Section,
    NodalLoad,
    DisplacementConstraint,
}

/// Diagnostic name of an entity kind.
pub open spec fn entity_name(entity: Entity) -> Seq<char> {
    match entity {
        Entity::Node => "node"@,
        Entity::Element => "element"@,
        Entity::Material => "material"@,
        Entity::Section => "section"@,
        Entity::NodalLoad => "nodal load"@,
        Entity::DisplacementConstraint => "displacement constraint"@,
    }
}

impl Entity {
    /// Returns the diagnostic name of the entity kind.
    pub fn name(self) -> (name: &'static str)
        ensures
            name@ == entity_name(self),
    {
        match self {
            Entity::Node => "node",
            Entity::Element => "element",
            Entity::Material => "material",
            Entity::Section => "section",
            Entity::NodalLoad => "nodal load",
            Entity::DisplacementConstraint => "displacement constraint",
        }
    }
}

/// Errors of the model topology, the element definitions and the text input.
#[derive(Debug, Clone, PartialEq)]
pub enum FemError {
    DuplicateId { entity: Entity, id: usize },
    UnknownId { entity: Entity, id: usize },
    InvalidElementConnectivity { element_id: usize, node_ids: Vec<usize> },
    InvalidAnalysisSpace { value: String },
    UnknownDof { node_id: usize, dof: Dof2D },
    InvalidSectionType { section_id: usize, expected: SectionKind, actual: SectionKind },
    InvalidReference {
        owner_entity: Entity,
        owner_id: usize,
        referenced_entity: Entity,
        referenced_id: usize,
    },
    InvalidDofIndex { index: usize },
    IncompatibleLinearSystem { stiffness_rows: usize, stiffness_columns: usize, load_vector_length: usize },
    SingularSystem,
    InvalidSolverIterationLimit { value: usize },
}

/// The elements of an ID list separated by `", "`.
pub open spec fn id_list_body(ids: Seq<usize>) -> Seq<char>
    decreases ids.len(),
{
    if ids.len() == 0 {
        seq![]
    } else if ids.len() == 1 {
        decimal(ids[0] as nat)
    } else {
        id_list_body(ids.drop_last()) + ", "@ + decimal(ids.last() as nat)
    }
}

/// An ID list in debug notation, such as `[1, 2, 3]`.
pub open spec fn id_list(ids: Seq<usize>) -> Seq<char> {
    "["@ + id_list_body(ids) + "]"@
}

/// Message for an element whose connectivity list repeats a node.
pub open spec fn connectivity_message(element_id: usize, node_ids: Seq<usize>) -> Seq<char> {
    "element "@ + decimal(element_id as nat) + " has invalid connectivity: "@ + id_list(node_ids)
}

/// The human-readable message of an error.
pub open spec fn error_message(error: FemError) -> Seq<char> {
    match error {
        FemError::DuplicateId { entity, id } => "duplicate "@ + entity_name(entity) + " ID: "@
            + decimal(id as nat),
        FemError::UnknownId { entity, id } => "unknown "@ + entity_name(entity) + " ID: "@ + decimal(
            id as nat,
        ),
        FemError::InvalidElementConnectivity { element_id, node_ids } => connectivity_message(
            element_id,
            node_ids@,
        ),
        FemError::InvalidAnalysisSpace { value } => "invalid analysis space: "@ + value@,
        FemError::UnknownDof { node_id, dof } => "node "@ + decimal(node_id as nat)
            + " does not have degree of freedom "@ + dof_name(dof),
        FemError::InvalidSectionType { section_id, expected, actual } => "section "@ + decimal(
            section_id as nat,
        ) + " has type "@ + section_kind_name(actual) + ", expected "@ + section_kind_name(expected),
        FemError::InvalidReference { owner_entity, owner_id, referenced_entity, referenced_id } =>
            entity_name(owner_entity) + " "@ + decimal(owner_id as nat) + " references unknown "@
            + entity_name(referenced_entity) + " ID: "@ + decimal(referenced_id as nat),
        FemError::InvalidDofIndex { index } => "linear system references invalid DOF index: "@
            + decimal(index as nat),
        FemError::IncompatibleLinearSystem { stiffness_rows, stiffness_columns, load_vector_length } =>
            "linear system has incompatible dimensions: stiffness matrix is "@ + decimal(stiffness_rows as nat)
            + "x"@ + decimal(stiffness_columns as nat) + ", load vector has length "@ + decimal(
            load_vector_length as nat,
        ),
        FemError::SingularSystem => "the stiffness matrix is singular"@,
        FemError::InvalidSolverIterationLimit { value } => "conjugate gradient iteration limit must be positive: "@
            + decimal(value as nat),
    }
}

/// Appends an ID list in debug notation.
fn append_id_list(s: &mut String, ids: &Vec<usize>)
    ensures
        final(s)@ == old(s)@ + id_list(ids@),
{
    s.append("[");
    let mut i: usize = 0;
    while i < ids.len()
        invariant
            i <= ids@.len(),
            s@ == old(s)@ + "["@ + id_list_body(ids@.take(i as int)),
        decreases ids@.len() - i,
    {
        let ghost before = s@;
        assert(ids@.take(i + 1).drop_last() =~= ids@.take(i as int));
        if i > 0 {
            s.append(", ");
        }
        append_decimal(s, ids[i]);
        proof {
            if i == 0 {
                assert(ids@.take(1).len() == 1);
                assert(id_list_body(ids@.take(0)) =~= seq![]);
            }
        }
        assert(s@ =~= old(s)@ + "["@ + id_list_body(ids@.take(i + 1)));
        i += 1;
    }
    assert(ids@.take(ids@.len() as int) =~= ids@);
    s.append("]");
    assert(s@ =~= old(s)@ + id_list(ids@));
}

impl FemError {
    /// Returns the human-readable message of the error.
    pub fn message(&self) -> (m: String)
        ensures
            m@ == error_message(*self),
    {
        let mut m = String::new();
        match self {
            FemError::DuplicateId { entity, id } => {
                m.append("duplicate ");
                m.append(entity.name());
                m.append(" ID: ");
                append_decimal(&mut m, *id);
            },
            FemError::UnknownId { entity, id } => {
                m.append("unknown ");
                m.append(entity.name());
                m.append(" ID: ");
                append_decimal(&mut m, *id);
            },
            FemError::InvalidElementConnectivity { element_id, node_ids } => {
                m.append("element ");
                append_decimal(&mut m, *element_id);
                m.append(" has invalid connectivity: ");
                append_id_list(&mut m, node_ids);
            },
            FemError::InvalidAnalysisSpace { value } => {
                m.append("invalid analysis space: ");
                m.append(value.as_str());
            },
            FemError::UnknownDof { node_id, dof } => {
                m.append("node ");
                append_decimal(&mut m, *node_id);
                m.append(" does not have degree of freedom ");
                m.append(dof.name());
            },
            FemError::InvalidSectionType { section_id, expected, actual } => {
                m.append("section ");
                append_decimal(&mut m, *section_id);
                m.append(" has type ");
                m.append(actual.name());
                m.append(", expected ");
                m.append(expected.name());
            },
            FemError::InvalidReference { owner_entity, owner_id, referenced_entity, referenced_id } => {
                m.append(owner_entity.name());
                m.append(" ");
                append_decimal(&mut m, *owner_id);
                m.append(" references unknown ");
                m.append(referenced_entity.name());
                m.append(" ID: ");
                append_decimal(&mut m, *referenced_id);
            },
            FemError::InvalidDofIndex { index } => {
                m.append("linear system references invalid DOF index: ");
                append_decimal(&mut m, *index);
            },
            FemError::IncompatibleLinearSystem { stiffness_rows, stiffness_columns, load_vector_length } => {
                m.append("linear system has incompatible dimensions: stiffness matrix is ");
                append_decimal(&mut m, *stiffness_rows);
                m.append("x");
                append_decimal(&mut m, *stiffness_columns);
                m.append(", load vector has length ");
                append_decimal(&mut m, *load_vector_length);
            },
            FemError::SingularSystem => {
                m.append("the stiffness matrix is singular");
            },
            FemError::InvalidSolverIterationLimit { value } => {
                m.append("conjugate gradient iteration limit must be positive: ");
                append_decimal(&mut m, *value);
            },
        }
        assert(m@ =~= error_message(*self));
        m
    }
}

} // verus!
