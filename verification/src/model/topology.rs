//! Identifiers and connectivity of a two-dimensional model.
//!
//! A model's numeric data (coordinates, material and section properties, load and
//! displacement values) is kept by its owner in the same order as the entries here;
//! this type holds what the model's validation reads: the IDs, the element
//! connectivity, the section kinds and the constrained or loaded degrees of freedom.
use vstd::prelude::*;

use crate::elements::element_2d::Element2D;
use crate::error::{Entity, FemError};
use crate::model::dof::Dof2D;
use crate::model::sections::SectionKind;

pub use crate::model::materials::DEFAULT_MATERIAL_ID;

verus! {

/// `id` occurs among the first components of `entries`.
pub open spec fn has_key<T>(entries: Seq<(usize, T)>, id: usize) -> bool {
    exists|i: int| 0 <= i < entries.len() && #[trigger] entries[i].0 == id
}

/// The IDs of `ids` are pairwise distinct.
pub open spec fn distinct_ids(ids: Seq<usize>) -> bool {
    forall|i: int, j: int| 0 <= i < ids.len() && 0 <= j < ids.len() && i != j ==> ids[i] != ids[j]
}

/// The first components of `entries` are pairwise distinct.
pub open spec fn distinct_keys<T>(entries: Seq<(usize, T)>) -> bool {
    forall|i: int, j: int|
        0 <= i < entries.len() && 0 <= j < entries.len() && i != j ==> entries[i].0 != entries[j].0
}

/// The element IDs of `elements` are pairwise distinct.
pub open spec fn distinct_element_ids(elements: Seq<Element2D>) -> bool {
    forall|i: int, j: int|
        0 <= i < elements.len() && 0 <= j < elements.len() && i != j ==> elements[i].spec_id()
            != elements[j].spec_id()
}

/// `id` is the ID of one of `elements`.
pub open spec fn has_element_id(elements: Seq<Element2D>, id: usize) -> bool {
    exists|i: int| 0 <= i < elements.len() && #[trigger] elements[i].spec_id() == id
}

/// Every node of `element` is one of `node_ids`.
pub open spec fn nodes_known(element: Element2D, node_ids: Seq<usize>) -> bool {
    forall|k: int| 0 <= k < element.spec_node_ids().len() ==> node_ids.contains(
        #[trigger] element.spec_node_ids()[k],
    )
}

/// `kind` is the kind of the section with ID `id` in `sections`.
pub open spec fn section_has_kind(sections: Seq<(usize, SectionKind)>, id: usize, kind: SectionKind) -> bool {
    exists|i: int| 0 <= i < sections.len() && #[trigger] sections[i] == (id, kind)
}

/// Appending to a sequence keeps what it contained.
pub proof fn lemma_push_keeps<T>(s: Seq<T>, x: T, y: T)
    requires
        s.contains(y),
    ensures
        s.push(x).contains(y),
{
    let j = choose|j: int| 0 <= j < s.len() && s[j] == y;
    assert(s.push(x)[j] == s[j]);
}

/// Every element references known nodes, a known material and a known section of
/// the kind that its type requires.
pub open spec fn elements_consistent(
    elements: Seq<Element2D>,
    node_ids: Seq<usize>,
    material_ids: Seq<usize>,
    sections: Seq<(usize, SectionKind)>,
) -> bool {
    forall|i: int|
        0 <= i < elements.len() ==> {
            &&& nodes_known(#[trigger] elements[i], node_ids)
            &&& material_ids.contains(elements[i].spec_material_id())
            &&& section_has_kind(sections, elements[i].spec_section_id(), elements[i].spec_section_kind())
        }
}

/// Every entry refers to a known node.
pub open spec fn refs_known(entries: Seq<(usize, Dof2D)>, node_ids: Seq<usize>) -> bool {
    forall|i: int| 0 <= i < entries.len() ==> node_ids.contains(#[trigger] entries[i].0)
}

/// A section registered with a kind has a registered ID.
pub proof fn lemma_kind_implies_key(sections: Seq<(usize, SectionKind)>, id: usize, kind: SectionKind)
    requires
        section_has_kind(sections, id, kind),
    ensures
        has_key(sections, id),
{
    let i = choose|i: int| 0 <= i < sections.len() && #[trigger] sections[i] == (id, kind);
    assert(sections[i].0 == id);
}

/// Identifiers and connectivity of a 2D model.
pub struct ModelTopology2D {
    node_ids: Vec<usize>,
    elements: Vec<Element2D>,
    constraints: Vec<(usize, Dof2D)>,
    loads: Vec<(usize, Dof2D)>,
    material_ids: Vec<usize>,
    sections: Vec<(usize, SectionKind)>,
}

/// Finds the position of `id` in `ids`.
pub fn position_of(ids: &Vec<usize>, id: usize) -> (r: Option<usize>)
    ensures
        r matches Some(i) ==> i < ids@.len() && ids@[i as int] == id,
        r is None <==> !ids@.contains(id),
{
    let mut i: usize = 0;
    while i < ids.len()
        invariant
            i <= ids@.len(),
            forall|j: int| 0 <= j < i ==> ids@[j] != id,
        decreases ids@.len() - i,
    {
        if ids[i] == id {
            return Some(i);
        }
        i += 1;
    }
    None
}

/// Finds the position of the entry whose first component is `id`.
pub fn position_of_key<T: Copy>(entries: &Vec<(usize, T)>, id: usize) -> (r: Option<usize>)
    ensures
        r matches Some(i) ==> i < entries@.len() && entries@[i as int].0 == id,
        r is None <==> !has_key(entries@, id),
{
    let mut i: usize = 0;
    while i < entries.len()
        invariant
            i <= entries@.len(),
            forall|j: int| 0 <= j < i ==> entries@[j].0 != id,
        decreases entries@.len() - i,
    {
        if entries[i].0 == id {
            return Some(i);
        }
        i += 1;
    }
    None
}

impl ModelTopology2D {
    /// Node IDs in insertion order.
    pub closed spec fn spec_node_ids(&self) -> Seq<usize> {
        self.node_ids@
    }

    /// Elements in insertion order.
    pub closed spec fn spec_elements(&self) -> Seq<Element2D> {
        self.elements@
    }

    /// Constrained degrees of freedom in insertion order.
    pub closed spec fn spec_constraints(&self) -> Seq<(usize, Dof2D)> {
        self.constraints@
    }

    /// Loaded degrees of freedom in insertion order.
    pub closed spec fn spec_loads(&self) -> Seq<(usize, Dof2D)> {
        self.loads@
    }

    /// Material IDs in insertion order.
    pub closed spec fn spec_material_ids(&self) -> Seq<usize> {
        self.material_ids@
    }

    /// Section IDs and kinds in insertion order.
    pub closed spec fn spec_sections(&self) -> Seq<(usize, SectionKind)> {
        self.sections@
    }

    /// The model's consistency rules: IDs are unique per entity kind and every
    /// reference points at an existing entity of the right kind.
    pub open spec fn well_formed(&self) -> bool {
        &&& distinct_ids(self.spec_node_ids())
        &&& distinct_element_ids(self.spec_elements())
        &&& distinct_ids(self.spec_material_ids())
        &&& distinct_keys(self.spec_sections())
        &&& elements_consistent(
            self.spec_elements(),
            self.spec_node_ids(),
            self.spec_material_ids(),
            self.spec_sections(),
        )
        &&& refs_known(self.spec_constraints(), self.spec_node_ids())
        &&& refs_known(self.spec_loads(), self.spec_node_ids())
    }

    /// Creates an empty model topology.
    pub fn new() -> (r: Self)
        ensures
            r.well_formed(),
            r.spec_node_ids() == Seq::<usize>::empty(),
            r.spec_elements() == Seq::<Element2D>::empty(),
            r.spec_constraints() == Seq::<(usize, Dof2D)>::empty(),
            r.spec_loads() == Seq::<(usize, Dof2D)>::empty(),
            r.spec_material_ids() == Seq::<usize>::empty(),
            r.spec_sections() == Seq::<(usize, SectionKind)>::empty(),
    {
        ModelTopology2D {
            node_ids: Vec::new(),
            elements: Vec::new(),
            constraints: Vec::new(),
            loads: Vec::new(),
            material_ids: Vec::new(),
            sections: Vec::new(),
        }
    }

    /// Node IDs in insertion order.
    pub fn node_ids(&self) -> (r: &Vec<usize>)
        ensures
            r@ == self.spec_node_ids(),
    {
        &self.node_ids
    }

    /// Elements in insertion order.
    pub fn elements(&self) -> (r: &Vec<Element2D>)
        ensures
            r@ == self.spec_elements(),
    {
        &self.elements
    }

    /// Constrained degrees of freedom in insertion order.
    pub fn constraints(&self) -> (r: &Vec<(usize, Dof2D)>)
        ensures
            r@ == self.spec_constraints(),
    {
        &self.constraints
    }

    /// Loaded degrees of freedom in insertion order.
    pub fn loads(&self) -> (r: &Vec<(usize, Dof2D)>)
        ensures
            r@ == self.spec_loads(),
    {
        &self.loads
    }

    /// Material IDs in insertion order.
    pub fn material_ids(&self) -> (r: &Vec<usize>)
        ensures
            r@ == self.spec_material_ids(),
    {
        &self.material_ids
    }

    /// Section IDs and kinds in insertion order.
    pub fn sections(&self) -> (r: &Vec<(usize, SectionKind)>)
        ensures
            r@ == self.spec_sections(),
    {
        &self.sections
    }

    /// Checks whether a node ID exists.
    pub fn contains_node_id(&self, node_id: usize) -> (r: bool)
        ensures
            r == self.spec_node_ids().contains(node_id),
    {
        position_of(&self.node_ids, node_id).is_some()
    }

    /// Checks whether an element ID exists.
    pub fn contains_element_id(&self, element_id: usize) -> (r: bool)
        ensures
            r == has_element_id(self.spec_elements(), element_id),
    {
        self.element_index(element_id).is_some()
    }

    /// Position of the node with the given ID.
    pub fn node_index(&self, node_id: usize) -> (r: Result<usize, FemError>)
        ensures
            r matches Ok(i) ==> i < self.spec_node_ids().len() && self.spec_node_ids()[i as int]
                == node_id,
            r is Err <==> !self.spec_node_ids().contains(node_id),
            r is Err ==> r == Err::<usize, FemError>(FemError::UnknownId { entity: Entity::Node, id: node_id }),
    {
        match position_of(&self.node_ids, node_id) {
            Some(i) => Ok(i),
            None => Err(FemError::UnknownId { entity: Entity::Node, id: node_id }),
        }
    }

    /// Position of the element with the given ID.
    pub fn element_index(&self, element_id: usize) -> (r: Option<usize>)
        ensures
            r matches Some(i) ==> i < self.spec_elements().len() && self.spec_elements()[i as int].spec_id()
                == element_id,
            r is None <==> !has_element_id(self.spec_elements(), element_id),
    {
        let mut i: usize = 0;
        while i < self.elements.len()
            invariant
                i <= self.elements@.len(),
                forall|j: int| 0 <= j < i ==> self.elements@[j].spec_id() != element_id,
            decreases self.elements@.len() - i,
        {
            if self.elements[i].id() == element_id {
                return Some(i);
            }
            i += 1;
        }
        None
    }

    /// Position of the material with the given ID.
    pub fn material_index(&self, material_id: usize) -> (r: Result<usize, FemError>)
        ensures
            r matches Ok(i) ==> i < self.spec_material_ids().len() && self.spec_material_ids()[i as int]
                == material_id,
            r is Err <==> !self.spec_material_ids().contains(material_id),
            r is Err ==> r == Err::<usize, FemError>(
                FemError::UnknownId { entity: Entity::Material, id: material_id },
            ),
    {
        match position_of(&self.material_ids, material_id) {
            Some(i) => Ok(i),
            None => Err(FemError::UnknownId { entity: Entity::Material, id: material_id }),
        }
    }

    /// Position of the section with the given ID.
    pub fn section_index(&self, section_id: usize) -> (r: Result<usize, FemError>)
        ensures
            r matches Ok(i) ==> i < self.spec_sections().len() && self.spec_sections()[i as int].0
                == section_id,
            r is Err <==> !has_key(self.spec_sections(), section_id),
            r is Err ==> r == Err::<usize, FemError>(
                FemError::UnknownId { entity: Entity::Section, id: section_id },
            ),
    {
        match position_of_key(&self.sections, section_id) {
            Some(i) => Ok(i),
            None => Err(FemError::UnknownId { entity: Entity::Section, id: section_id }),
        }
    }

    /// Returns the kind of the section with the given ID.
    pub fn section(&self, section_id: usize) -> (r: Result<SectionKind, FemError>)
        requires
            self.well_formed(),
        ensures
            r matches Ok(kind) ==> section_has_kind(self.spec_sections(), section_id, kind),
            r is Err <==> !has_key(self.spec_sections(), section_id),
            r is Err ==> r == Err::<SectionKind, FemError>(
                FemError::UnknownId { entity: Entity::Section, id: section_id },
            ),
    {
        let i = self.section_index(section_id)?;
        let kind = self.sections[i].1;
        assert(self.sections@[i as int] == (section_id, kind));
        Ok(kind)
    }

    /// Adds a node. Fails if a node with the same ID already exists.
    pub fn add_node(&mut self, node_id: usize) -> (r: Result<(), FemError>)
        requires
            old(self).well_formed(),
        ensures
            final(self).well_formed(),
            old(self).spec_node_ids().contains(node_id) ==> r == Err::<(), FemError>(
                FemError::DuplicateId { entity: Entity::Node, id: node_id },
            ) && *final(self) == *old(self),
            !old(self).spec_node_ids().contains(node_id) ==> r is Ok && final(self).spec_node_ids()
                == old(self).spec_node_ids().push(node_id),
            final(self).spec_elements() == old(self).spec_elements(),
            final(self).spec_constraints() == old(self).spec_constraints(),
            final(self).spec_loads() == old(self).spec_loads(),
            final(self).spec_material_ids() == old(self).spec_material_ids(),
            final(self).spec_sections() == old(self).spec_sections(),
    {
        if self.contains_node_id(node_id) {
            return Err(FemError::DuplicateId { entity: Entity::Node, id: node_id });
        }
        let ghost before = self.node_ids@;
        self.node_ids.push(node_id);
        proof {
            assert forall|i: int| 0 <= i < self.elements@.len() implies {
                &&& nodes_known(#[trigger] self.elements@[i], self.node_ids@)
                &&& self.material_ids@.contains(self.elements@[i].spec_material_id())
                &&& section_has_kind(
                    self.sections@,
                    self.elements@[i].spec_section_id(),
                    self.elements@[i].spec_section_kind(),
                )
            } by {
                let e = self.elements@[i];
                assert(nodes_known(old(self).spec_elements()[i], before));
                assert forall|k: int| 0 <= k < e.spec_node_ids().len() implies self.node_ids@.contains(
                    #[trigger] e.spec_node_ids()[k],
                ) by {
                    lemma_push_keeps(before, node_id, e.spec_node_ids()[k]);
                }
            }
            assert forall|i: int| 0 <= i < self.constraints@.len() implies self.node_ids@.contains(
                #[trigger] self.constraints@[i].0,
            ) by {
                assert(before.contains(old(self).spec_constraints()[i].0));
                lemma_push_keeps(before, node_id, self.constraints@[i].0);
            }
            assert forall|i: int| 0 <= i < self.loads@.len() implies self.node_ids@.contains(
                #[trigger] self.loads@[i].0,
            ) by {
                assert(before.contains(old(self).spec_loads()[i].0));
                lemma_push_keeps(before, node_id, self.loads@[i].0);
            }
        }
        Ok(())
    }

    /// Adds a displacement constraint on a degree of freedom of an existing node.
    pub fn add_constraint(&mut self, node_id: usize, dof: Dof2D) -> (r: Result<(), FemError>)
        requires
            old(self).well_formed(),
        ensures
            final(self).well_formed(),
            !old(self).spec_node_ids().contains(node_id) ==> r == Err::<(), FemError>(
                FemError::UnknownId { entity: Entity::Node, id: node_id },
            ) && *final(self) == *old(self),
            old(self).spec_node_ids().contains(node_id) ==> r is Ok && final(self).spec_constraints()
                == old(self).spec_constraints().push((node_id, dof)),
            final(self).spec_node_ids() == old(self).spec_node_ids(),
            final(self).spec_elements() == old(self).spec_elements(),
            final(self).spec_loads() == old(self).spec_loads(),
            final(self).spec_material_ids() == old(self).spec_material_ids(),
            final(self).spec_sections() == old(self).spec_sections(),
    {
        if !self.contains_node_id(node_id) {
            return Err(FemError::UnknownId { entity: Entity::Node, id: node_id });
        }
        self.constraints.push((node_id, dof));
        proof {
            assert forall|i: int| 0 <= i < self.constraints@.len() implies self.node_ids@.contains(
                #[trigger] self.constraints@[i].0,
            ) by {
                if i < old(self).spec_constraints().len() {
                    assert(old(self).spec_constraints()[i] == self.constraints@[i]);
                }
            }
        }
        Ok(())
    }

    /// Adds a nodal load on a degree of freedom of an existing node.
    pub fn add_load(&mut self, node_id: usize, dof: Dof2D) -> (r: Result<(), FemError>)
        requires
            old(self).well_formed(),
        ensures
            final(self).well_formed(),
            !old(self).spec_node_ids().contains(node_id) ==> r == Err::<(), FemError>(
                FemError::UnknownId { entity: Entity::Node, id: node_id },
            ) && *final(self) == *old(self),
            old(self).spec_node_ids().contains(node_id) ==> r is Ok && final(self).spec_loads()
                == old(self).spec_loads().push((node_id, dof)),
            final(self).spec_node_ids() == old(self).spec_node_ids(),
            final(self).spec_elements() == old(self).spec_elements(),
            final(self).spec_constraints() == old(self).spec_constraints(),
            final(self).spec_material_ids() == old(self).spec_material_ids(),
            final(self).spec_sections() == old(self).spec_sections(),
    {
        if !self.contains_node_id(node_id) {
            return Err(FemError::UnknownId { entity: Entity::Node, id: node_id });
        }
        self.loads.push((node_id, dof));
        proof {
            assert forall|i: int| 0 <= i < self.loads@.len() implies self.node_ids@.contains(
                #[trigger] self.loads@[i].0,
            ) by {
                if i < old(self).spec_loads().len() {
                    assert(old(self).spec_loads()[i] == self.loads@[i]);
                }
            }
        }
        Ok(())
    }

    /// Adds a material with a model-unique ID.
    pub fn add_material(&mut self, material_id: usize) -> (r: Result<(), FemError>)
        requires
            old(self).well_formed(),
        ensures
            final(self).well_formed(),
            old(self).spec_material_ids().contains(material_id) ==> r == Err::<(), FemError>(
                FemError::DuplicateId { entity: Entity::Material, id: material_id },
            ) && *final(self) == *old(self),
            !old(self).spec_material_ids().contains(material_id) ==> r is Ok
                && final(self).spec_material_ids() == old(self).spec_material_ids().push(material_id),
            final(self).spec_node_ids() == old(self).spec_node_ids(),
            final(self).spec_elements() == old(self).spec_elements(),
            final(self).spec_constraints() == old(self).spec_constraints(),
            final(self).spec_loads() == old(self).spec_loads(),
            final(self).spec_sections() == old(self).spec_sections(),
    {
        if position_of(&self.material_ids, material_id).is_some() {
            return Err(FemError::DuplicateId { entity: Entity::Material, id: material_id });
        }
        let ghost before = self.material_ids@;
        self.material_ids.push(material_id);
        proof {
            assert forall|i: int| 0 <= i < self.elements@.len() implies {
                &&& nodes_known(#[trigger] self.elements@[i], self.node_ids@)
                &&& self.material_ids@.contains(self.elements@[i].spec_material_id())
                &&& section_has_kind(
                    self.sections@,
                    self.elements@[i].spec_section_id(),
                    self.elements@[i].spec_section_kind(),
                )
            } by {
                assert(before.contains(old(self).spec_elements()[i].spec_material_id()));
                lemma_push_keeps(before, material_id, self.elements@[i].spec_material_id());
            }
        }
        Ok(())
    }

    /// Registers the default material ID (`DEFAULT_MATERIAL_ID`) if it is not registered yet.
    pub fn set_default_material(&mut self)
        requires
            old(self).well_formed(),
        ensures
            final(self).well_formed(),
            old(self).spec_material_ids().contains(DEFAULT_MATERIAL_ID) ==> *final(self) == *old(self),
            !old(self).spec_material_ids().contains(DEFAULT_MATERIAL_ID) ==> final(self).spec_material_ids()
                == old(self).spec_material_ids().push(DEFAULT_MATERIAL_ID),
            final(self).spec_material_ids().contains(DEFAULT_MATERIAL_ID),
            final(self).spec_node_ids() == old(self).spec_node_ids(),
            final(self).spec_elements() == old(self).spec_elements(),
            final(self).spec_constraints() == old(self).spec_constraints(),
            final(self).spec_loads() == old(self).spec_loads(),
            final(self).spec_sections() == old(self).spec_sections(),
    {
        let _ = self.add_material(DEFAULT_MATERIAL_ID);
        proof {
            if !old(self).spec_material_ids().contains(DEFAULT_MATERIAL_ID) {
                assert(self.material_ids@[self.material_ids@.len() - 1] == DEFAULT_MATERIAL_ID);
            }
        }
    }

    /// Adds a section with a model-unique ID.
    pub fn add_section(&mut self, section_id: usize, kind: SectionKind) -> (r: Result<(), FemError>)
        requires
            old(self).well_formed(),
        ensures
            final(self).well_formed(),
            has_key(old(self).spec_sections(), section_id) ==> r == Err::<(), FemError>(
                FemError::DuplicateId { entity: Entity::Section, id: section_id },
            ) && *final(self) == *old(self),
            !has_key(old(self).spec_sections(), section_id) ==> r is Ok && final(self).spec_sections()
                == old(self).spec_sections().push((section_id, kind)),
            final(self).spec_node_ids() == old(self).spec_node_ids(),
            final(self).spec_elements() == old(self).spec_elements(),
            final(self).spec_constraints() == old(self).spec_constraints(),
            final(self).spec_loads() == old(self).spec_loads(),
            final(self).spec_material_ids() == old(self).spec_material_ids(),
    {
        if position_of_key(&self.sections, section_id).is_some() {
            return Err(FemError::DuplicateId { entity: Entity::Section, id: section_id });
        }
        let ghost before = self.sections@;
        self.sections.push((section_id, kind));
        proof {
            assert forall|i: int| 0 <= i < self.elements@.len() implies {
                &&& nodes_known(#[trigger] self.elements@[i], self.node_ids@)
                &&& self.material_ids@.contains(self.elements@[i].spec_material_id())
                &&& section_has_kind(
                    self.sections@,
                    self.elements@[i].spec_section_id(),
                    self.elements@[i].spec_section_kind(),
                )
            } by {
                let e = old(self).spec_elements()[i];
                assert(section_has_kind(before, e.spec_section_id(), e.spec_section_kind()));
                let j = choose|j: int| 0 <= j < before.len() && #[trigger] before[j] == (
                    e.spec_section_id(),
                    e.spec_section_kind(),
                );
                assert(self.sections@[j] == before[j]);
            }
            assert forall|i: int, j: int|
                0 <= i < self.sections@.len() && 0 <= j < self.sections@.len() && i != j implies self.sections@[i].0
                != self.sections@[j].0 by {
                let n = before.len() as int;
                if i == n {
                    assert(self.sections@[j] == before[j]);
                } else if j == n {
                    assert(self.sections@[i] == before[i]);
                }
            }
        }
        Ok(())
    }

    /// Checks an element before it is inserted: its ID must be new and every node it
    /// references must exist.
    pub fn validate_element_for_insert(&self, element: &Element2D) -> (r: Result<(), FemError>)
        ensures
            has_element_id(self.spec_elements(), element.spec_id()) ==> r == Err::<(), FemError>(
                FemError::DuplicateId { entity: Entity::Element, id: element.spec_id() },
            ),
            !has_element_id(self.spec_elements(), element.spec_id()) ==> (r is Ok <==> nodes_known(
                *element,
                self.spec_node_ids(),
            )),
            !has_element_id(self.spec_elements(), element.spec_id()) && !nodes_known(
                *element,
                self.spec_node_ids(),
            ) ==> r == Err::<(), FemError>(
                FemError::UnknownId {
                    entity: Entity::Node,
                    id: element.spec_node_ids()[first_unknown_node(*element, self.spec_node_ids())],
                },
            ),
    {
        if self.contains_element_id(element.id()) {
            return Err(FemError::DuplicateId { entity: Entity::Element, id: element.id() });
        }
        let node_ids = element.node_ids();
        let mut k: usize = 0;
        while k < node_ids.len()
            invariant
                k <= node_ids@.len(),
                node_ids@ == element.spec_node_ids(),
                !has_element_id(self.spec_elements(), element.spec_id()),
                forall|j: int| 0 <= j < k ==> self.spec_node_ids().contains(#[trigger] node_ids@[j]),
            decreases node_ids@.len() - k,
        {
            if !self.contains_node_id(node_ids[k]) {
                proof {
                    lemma_first_unknown_node(*element, self.spec_node_ids(), k as int);
                }
                return Err(FemError::UnknownId { entity: Entity::Node, id: node_ids[k] });
            }
            k += 1;
        }
        Ok(())
    }

    /// Adds an element. Its ID must be new, its nodes and material must exist, and its
    /// section must exist with the kind the element type requires.
    pub fn add_element(&mut self, element: Element2D) -> (r: Result<(), FemError>)
        requires
            old(self).well_formed(),
        ensures
            final(self).well_formed(),
            r is Ok <==> element_insertable(*old(self), element),
            r is Ok ==> final(self).spec_elements() == old(self).spec_elements().push(element),
            r is Err ==> *final(self) == *old(self),
            r is Err ==> r == Err::<(), FemError>(insert_error(*old(self), element)),
            final(self).spec_node_ids() == old(self).spec_node_ids(),
            final(self).spec_constraints() == old(self).spec_constraints(),
            final(self).spec_loads() == old(self).spec_loads(),
            final(self).spec_material_ids() == old(self).spec_material_ids(),
            final(self).spec_sections() == old(self).spec_sections(),
    {
        self.validate_element_for_insert(&element)?;
        self.material_index(element.material_id())?;
        proof {
            if section_has_kind(self.sections@, element.spec_section_id(), element.spec_section_kind()) {
                lemma_kind_implies_key(self.sections@, element.spec_section_id(), element.spec_section_kind());
            }
        }
        let kind = self.section(element.section_id())?;
        element.validate_section(kind)?;
        proof {
            lemma_section_kind_unique(self.sections@, element.spec_section_id(), kind);
        }
        self.push_element(element);
        Ok(())
    }

    /// Adds an element together with the section it references; the section ID must be new.
    pub fn add_element_with_section(&mut self, element: Element2D, kind: SectionKind) -> (r: Result<
        (),
        FemError,
    >)
        requires
            old(self).well_formed(),
        ensures
            final(self).well_formed(),
            r is Ok <==> element_insertable_with_section(*old(self), element, kind),
            r is Ok ==> final(self).spec_elements() == old(self).spec_elements().push(element)
                && final(self).spec_sections() == old(self).spec_sections().push(
                (element.spec_section_id(), kind),
            ),
            r is Err ==> *final(self) == *old(self),
            r is Err ==> r == Err::<(), FemError>(insert_with_section_error(*old(self), element, kind)),
            final(self).spec_node_ids() == old(self).spec_node_ids(),
            final(self).spec_constraints() == old(self).spec_constraints(),
            final(self).spec_loads() == old(self).spec_loads(),
            final(self).spec_material_ids() == old(self).spec_material_ids(),
    {
        self.validate_element_for_insert(&element)?;
        self.material_index(element.material_id())?;
        element.validate_section(kind)?;
        self.add_section(element.section_id(), kind)?;
        assert(self.sections@[self.sections@.len() - 1] == (element.spec_section_id(), kind));
        self.push_element(element);
        Ok(())
    }

    fn push_element(&mut self, element: Element2D)
        requires
            old(self).well_formed(),
            !has_element_id(old(self).spec_elements(), element.spec_id()),
            nodes_known(element, old(self).spec_node_ids()),
            old(self).spec_material_ids().contains(element.spec_material_id()),
            section_has_kind(old(self).spec_sections(), element.spec_section_id(), element.spec_section_kind()),
        ensures
            final(self).well_formed(),
            final(self).spec_elements() == old(self).spec_elements().push(element),
            final(self).spec_node_ids() == old(self).spec_node_ids(),
            final(self).spec_constraints() == old(self).spec_constraints(),
            final(self).spec_loads() == old(self).spec_loads(),
            final(self).spec_material_ids() == old(self).spec_material_ids(),
            final(self).spec_sections() == old(self).spec_sections(),
    {
        self.elements.push(element);
        proof {
            let n = self.elements@.len() - 1;
            assert(self.elements@[n] == element);
            assert forall|i: int, j: int|
                0 <= i < self.elements@.len() && 0 <= j < self.elements@.len() && i != j implies self.elements@[i].spec_id()
                != self.elements@[j].spec_id() by {
                if i == n {
                    assert(old(self).spec_elements()[j] == self.elements@[j]);
                } else if j == n {
                    assert(old(self).spec_elements()[i] == self.elements@[i]);
                }
            }
            assert forall|i: int| 0 <= i < self.elements@.len() implies {
                &&& nodes_known(#[trigger] self.elements@[i], self.node_ids@)
                &&& self.material_ids@.contains(self.elements@[i].spec_material_id())
                &&& section_has_kind(
                    self.sections@,
                    self.elements@[i].spec_section_id(),
                    self.elements@[i].spec_section_kind(),
                )
            } by {
                if i < n {
                    assert(old(self).spec_elements()[i] == self.elements@[i]);
                }
            }
        }
    }
}

/// The position of the first node of `element` that is not one of `node_ids`.
pub open spec fn first_unknown_node(element: Element2D, node_ids: Seq<usize>) -> int {
    choose|k: int|
        0 <= k < element.spec_node_ids().len() && !node_ids.contains(element.spec_node_ids()[k])
            && forall|j: int| 0 <= j < k ==> node_ids.contains(#[trigger] element.spec_node_ids()[j])
}

proof fn lemma_first_unknown_node(element: Element2D, node_ids: Seq<usize>, k: int)
    requires
        0 <= k < element.spec_node_ids().len(),
        !node_ids.contains(element.spec_node_ids()[k]),
        forall|j: int| 0 <= j < k ==> node_ids.contains(#[trigger] element.spec_node_ids()[j]),
    ensures
        first_unknown_node(element, node_ids) == k,
        !nodes_known(element, node_ids),
{
    let c = first_unknown_node(element, node_ids);
    if c < k {
        assert(node_ids.contains(element.spec_node_ids()[c]));
    } else if c > k {
        assert(node_ids.contains(element.spec_node_ids()[k]));
    }
}

proof fn lemma_section_kind_unique(sections: Seq<(usize, SectionKind)>, id: usize, kind: SectionKind)
    requires
        distinct_keys(sections),
        section_has_kind(sections, id, kind),
    ensures
        forall|other: SectionKind| section_has_kind(sections, id, other) ==> other == kind,
{
    assert forall|other: SectionKind| section_has_kind(sections, id, other) implies other == kind by {
        let i = choose|i: int| 0 <= i < sections.len() && #[trigger] sections[i] == (id, kind);
        let j = choose|j: int| 0 <= j < sections.len() && #[trigger] sections[j] == (id, other);
        assert(i == j);
    }
}

/// The element can be added: new ID, known nodes, known material, and a known section
/// of the kind the element type requires.
pub open spec fn element_insertable(model: ModelTopology2D, element: Element2D) -> bool {
    &&& !has_element_id(model.spec_elements(), element.spec_id())
    &&& nodes_known(element, model.spec_node_ids())
    &&& model.spec_material_ids().contains(element.spec_material_id())
    &&& section_has_kind(model.spec_sections(), element.spec_section_id(), element.spec_section_kind())
}

/// The error reported when `element` cannot be added, in the order of the checks.
pub open spec fn insert_error(model: ModelTopology2D, element: Element2D) -> FemError {
    if has_element_id(model.spec_elements(), element.spec_id()) {
        FemError::DuplicateId { entity: Entity::Element, id: element.spec_id() }
    } else if !nodes_known(element, model.spec_node_ids()) {
        FemError::UnknownId {
            entity: Entity::Node,
            id: element.spec_node_ids()[first_unknown_node(element, model.spec_node_ids())],
        }
    } else if !model.spec_material_ids().contains(element.spec_material_id()) {
        FemError::UnknownId { entity: Entity::Material, id: element.spec_material_id() }
    } else if !has_key(model.spec_sections(), element.spec_section_id()) {
        FemError::UnknownId { entity: Entity::Section, id: element.spec_section_id() }
    } else {
        FemError::InvalidSectionType {
            section_id: element.spec_section_id(),
            expected: element.spec_section_kind(),
            actual: section_kind_of(model.spec_sections(), element.spec_section_id()),
        }
    }
}

/// The kind of the section with ID `id`.
pub open spec fn section_kind_of(sections: Seq<(usize, SectionKind)>, id: usize) -> SectionKind {
    let i = choose|i: int| 0 <= i < sections.len() && #[trigger] sections[i].0 == id;
    sections[i].1
}

/// The element can be added together with a new section of kind `kind`.
pub open spec fn element_insertable_with_section(
    model: ModelTopology2D,
    element: Element2D,
    kind: SectionKind,
) -> bool {
    &&& !has_element_id(model.spec_elements(), element.spec_id())
    &&& nodes_known(element, model.spec_node_ids())
    &&& model.spec_material_ids().contains(element.spec_material_id())
    &&& kind == element.spec_section_kind()
    &&& !has_key(model.spec_sections(), element.spec_section_id())
}

/// The error reported when `element` cannot be added with its section, in the order of the checks.
pub open spec fn insert_with_section_error(model: ModelTopology2D, element: Element2D, kind: SectionKind) -> FemError {
    if has_element_id(model.spec_elements(), element.spec_id()) {
        FemError::DuplicateId { entity: Entity::Element, id: element.spec_id() }
    } else if !nodes_known(element, model.spec_node_ids()) {
        FemError::UnknownId {
            entity: Entity::Node,
            id: element.spec_node_ids()[first_unknown_node(element, model.spec_node_ids())],
        }
    } else if !model.spec_material_ids().contains(element.spec_material_id()) {
        FemError::UnknownId { entity: Entity::Material, id: element.spec_material_id() }
    } else if kind != element.spec_section_kind() {
        FemError::InvalidSectionType {
            section_id: element.spec_section_id(),
            expected: element.spec_section_kind(),
            actual: kind,
        }
    } else {
        FemError::DuplicateId { entity: Entity::Section, id: element.spec_section_id() }
    }
}

} // verus!
