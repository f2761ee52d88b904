//! Two-node axial bar element of the one-dimensional bar model.
use vstd::prelude::*;

use crate::error::FemError;

verus! {

/// Two-node axial bar element in one spatial dimension.
#[derive(Debug, Clone, Copy, PartialEq)]
pub struct BarElement1D {
    id: usize,
    node_ids: [usize; 2],
    material_id: usize,
    section_id: usize,
}

impl BarElement1D {
    /// External element ID.
    pub closed spec fn spec_id(self) -> usize {
        self.id
    }

    /// External IDs of the two end nodes.
    pub closed spec fn spec_node_ids(self) -> [usize; 2] {
        self.node_ids
    }

    /// External material ID.
    pub closed spec fn spec_material_id(self) -> usize {
        self.material_id
    }

    /// External section ID.
    pub closed spec fn spec_section_id(self) -> usize {
        self.section_id
    }

    /// Creates a two-node bar element; the two node IDs must differ.
    pub fn new(id: usize, node_ids: [usize; 2], material_id: usize, section_id: usize) -> (r: Result<
        Self,
        FemError,
    >)
        ensures
            node_ids[0] != node_ids[1] ==> (r matches Ok(e) && e.spec_id() == id && e.spec_node_ids()
                == node_ids && e.spec_material_id() == material_id && e.spec_section_id()
                == section_id),
            node_ids[0] == node_ids[1] ==> (r matches Err(err) && err is InvalidElementConnectivity
                && err->element_id == id && err->node_ids@ == node_ids@),
    {
        if node_ids[0] == node_ids[1] {
            let mut ids: Vec<usize> = Vec::new();
            ids.push(node_ids[0]);
            ids.push(node_ids[1]);
            assert(ids@ =~= node_ids@);
            return Err(FemError::InvalidElementConnectivity { element_id: id, node_ids: ids });
        }
        Ok(BarElement1D { id, node_ids, material_id, section_id })
    }

    /// External element identifier.
    pub fn id(&self) -> (r: usize)
        ensures
            r == self.spec_id(),
    {
        self.id
    }

    /// External identifiers of the element end nodes.
    pub fn node_ids(&self) -> (r: [usize; 2])
        ensures
            r == self.spec_node_ids(),
    {
        self.node_ids
    }

    /// External material identifier.
    pub fn material_id(&self) -> (r: usize)
        ensures
            r == self.spec_material_id(),
    {
        self.material_id
    }

    /// External section identifier.
    pub fn section_id(&self) -> (r: usize)
        ensures
            r == self.spec_section_id(),
    {
        self.section_id
    }

    /// Local-to-global node ID mapping for the local displacement vector `[u1, u2]`.
    pub fn local_dof_node_ids(&self) -> (r: [usize; 2])
        ensures
            r == self.spec_node_ids(),
    {
        self.node_ids
    }
}

} // verus!
