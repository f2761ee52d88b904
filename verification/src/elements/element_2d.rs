//! Two-dimensional finite elements: connectivity, references and degrees of freedom.
//!
//! The element matrices are computed from node coordinates and material data held
//! outside these types; here each element is its identifier, its ordered node IDs
//! and the IDs of the material and section it uses.
use vstd::prelude::*;

use crate::elements::interpolation::Interpolation;
use crate::error::FemError;
use crate::model::dof::Dof2D;
use crate::model::sections::{section_kind_name, SectionKind};

verus! {

/// No two entries of `ids` are equal.
pub open spec fn all_distinct(ids: Seq<usize>) -> bool {
    forall|i: int, j: int| 0 <= i < j < ids.len() ==> ids[i] != ids[j]
}

/// Copies a list of node IDs into a vector.
pub fn ids_to_vec(ids: &[usize]) -> (v: Vec<usize>)
    ensures
        v@ == ids@,
{
    let mut v: Vec<usize> = Vec::new();
    let mut i: usize = 0;
    while i < ids.len()
        invariant
            i <= ids@.len(),
            v@ == ids@.take(i as int),
        decreases ids@.len() - i,
    {
        v.push(ids[i]);
        assert(ids@.take(i + 1) =~= ids@.take(i as int).push(ids@[i as int]));
        i += 1;
    }
    assert(ids@.take(ids@.len() as int) =~= ids@);
    v
}

/// Checks that no two node IDs of a connectivity list are equal.
pub fn has_distinct_ids(ids: &[usize]) -> (r: bool)
    ensures
        r == all_distinct(ids@),
{
    let n = ids.len();
    let mut first: usize = 0;
    while first < n
        invariant
            n == ids@.len(),
            first <= n,
            forall|i: int, j: int| 0 <= i < j < n && i < first ==> ids@[i] != ids@[j],
        decreases n - first,
    {
        let mut second: usize = first + 1;
        while second < n
            invariant
                n == ids@.len(),
                first < n,
                first + 1 <= second <= n,
                forall|i: int, j: int| 0 <= i < j < n && i < first ==> ids@[i] != ids@[j],
                forall|j: int| first < j < second ==> ids@[first as int] != ids@[j],
            decreases n - second,
        {
            if ids[first] == ids[second] {
                return false;
            }
            second += 1;
        }
        first += 1;
    }
    true
}

/// Truss element in 2D space, defined by two nodes.
#[derive(Debug, Clone, Copy, PartialEq)]
pub struct Truss2D {
    id: usize,
    node_ids: [usize; 2],
    material_id: usize,
    section_id: usize,
}

impl Truss2D {
    /// External element ID.
    pub closed spec fn spec_id(self) -> usize {
        self.id
    }

    /// External node IDs, in connectivity order.
    pub closed spec fn spec_node_ids(self) -> Seq<usize> {
        self.node_ids@
    }

    /// ID of the referenced material.
    pub closed spec fn spec_material_id(self) -> usize {
        self.material_id
    }

    /// ID of the referenced section.
    pub closed spec fn spec_section_id(self) -> usize {
        self.section_id
    }

    /// The connectivity list always has 2 entries.
    pub proof fn lemma_node_count(self)
        ensures
            self.spec_node_ids().len() == 2,
    {
    }

    /// Creates the element; its node IDs must be pairwise distinct.
    pub fn new(id: usize, node_ids: [usize; 2], material_id: usize, section_id: usize) -> (r: Result<
        Self,
        FemError,
    >)
        ensures
            all_distinct(node_ids@) ==> (r matches Ok(e) && e.spec_id() == id && e.spec_node_ids()
                == node_ids@ && e.spec_material_id() == material_id && e.spec_section_id() == section_id),
            !all_distinct(node_ids@) ==> (r matches Err(err) && err
                is InvalidElementConnectivity && err->element_id == id && err->node_ids@ == node_ids@),
    {
        if !has_distinct_ids(&node_ids) {
            return Err(FemError::InvalidElementConnectivity { element_id: id, node_ids: ids_to_vec(&node_ids) });
        }
        Ok(Truss2D { id, node_ids, material_id, section_id })
    }

    /// Returns the element ID.
    pub fn id(&self) -> (r: usize)
        ensures
            r == self.spec_id(),
    {
        self.id
    }

    /// Returns the node IDs in connectivity order.
    pub fn node_ids(&self) -> (r: [usize; 2])
        ensures
            r@ == self.spec_node_ids(),
    {
        self.node_ids
    }

    /// Returns the material ID used by this element.
    pub fn material_id(&self) -> (r: usize)
        ensures
            r == self.spec_material_id(),
    {
        self.material_id
    }

    /// Returns the section ID used by this element.
    pub fn section_id(&self) -> (r: usize)
        ensures
            r == self.spec_section_id(),
    {
        self.section_id
    }
}

/// Beam element in 2D space, defined by two nodes.
#[derive(Debug, Clone, Copy, PartialEq)]
pub struct Beam2D {
    id: usize,
    node_ids: [usize; 2],
    material_id: usize,
    section_id: usize,
}

impl Beam2D {
    /// External element ID.
    pub closed spec fn spec_id(self) -> usize {
        self.id
    }

    /// External node IDs, in connectivity order.
    pub closed spec fn spec_node_ids(self) -> Seq<usize> {
        self.node_ids@
    }

    /// ID of the referenced material.
    pub closed spec fn spec_material_id(self) -> usize {
        self.material_id
    }

    /// ID of the referenced section.
    pub closed spec fn spec_section_id(self) -> usize {
        self.section_id
    }

    /// The connectivity list always has 2 entries.
    pub proof fn lemma_node_count(self)
        ensures
            self.spec_node_ids().len() == 2,
    {
    }

    /// Creates the element; its node IDs must be pairwise distinct.
    pub fn new(id: usize, node_ids: [usize; 2], material_id: usize, section_id: usize) -> (r: Result<
        Self,
        FemError,
    >)
        ensures
            all_distinct(node_ids@) ==> (r matches Ok(e) && e.spec_id() == id && e.spec_node_ids()
                == node_ids@ && e.spec_material_id() == material_id && e.spec_section_id() == section_id),
            !all_distinct(node_ids@) ==> (r matches Err(err) && err
                is InvalidElementConnectivity && err->element_id == id && err->node_ids@ == node_ids@),
    {
        if !has_distinct_ids(&node_ids) {
            return Err(FemError::InvalidElementConnectivity { element_id: id, node_ids: ids_to_vec(&node_ids) });
        }
        Ok(Beam2D { id, node_ids, material_id, section_id })
    }

    /// Returns the element ID.
    pub fn id(&self) -> (r: usize)
        ensures
            r == self.spec_id(),
    {
        self.id
    }

    /// Returns the node IDs in connectivity order.
    pub fn node_ids(&self) -> (r: [usize; 2])
        ensures
            r@ == self.spec_node_ids(),
    {
        self.node_ids
    }

    /// Returns the material ID used by this element.
    pub fn material_id(&self) -> (r: usize)
        ensures
            r == self.spec_material_id(),
    {
        self.material_id
    }

    /// Returns the section ID used by this element.
    pub fn section_id(&self) -> (r: usize)
        ensures
            r == self.spec_section_id(),
    {
        self.section_id
    }
}

/// Triangle element in 2D space, defined by three nodes.
#[derive(Debug, Clone, Copy, PartialEq)]
pub struct TriangleT3 {
    id: usize,
    node_ids: [usize; 3],
    material_id: usize,
    section_id: usize,
}

impl TriangleT3 {
    /// External element ID.
    pub closed spec fn spec_id(self) -> usize {
        self.id
    }

    /// External node IDs, in connectivity order.
    pub closed spec fn spec_node_ids(self) -> Seq<usize> {
        self.node_ids@
    }

    /// ID of the referenced material.
    pub closed spec fn spec_material_id(self) -> usize {
        self.material_id
    }

    /// ID of the referenced section.
    pub closed spec fn spec_section_id(self) -> usize {
        self.section_id
    }

    /// The connectivity list always has 3 entries.
    pub proof fn lemma_node_count(self)
        ensures
            self.spec_node_ids().len() == 3,
    {
    }

    /// Creates the element; its node IDs must be pairwise distinct.
    pub fn new(id: usize, node_ids: [usize; 3], material_id: usize, section_id: usize) -> (r: Result<
        Self,
        FemError,
    >)
        ensures
            all_distinct(node_ids@) ==> (r matches Ok(e) && e.spec_id() == id && e.spec_node_ids()
                == node_ids@ && e.spec_material_id() == material_id && e.spec_section_id() == section_id),
            !all_distinct(node_ids@) ==> (r matches Err(err) && err
                is InvalidElementConnectivity && err->element_id == id && err->node_ids@ == node_ids@),
    {
        if !has_distinct_ids(&node_ids) {
            return Err(FemError::InvalidElementConnectivity { element_id: id, node_ids: ids_to_vec(&node_ids) });
        }
        Ok(TriangleT3 { id, node_ids, material_id, section_id })
    }

    /// Returns the element ID.
    pub fn id(&self) -> (r: usize)
        ensures
            r == self.spec_id(),
    {
        self.id
    }

    /// Returns the node IDs in connectivity order.
    pub fn node_ids(&self) -> (r: [usize; 3])
        ensures
            r@ == self.spec_node_ids(),
    {
        self.node_ids
    }

    /// Returns the material ID used by this element.
    pub fn material_id(&self) -> (r: usize)
        ensures
            r == self.spec_material_id(),
    {
        self.material_id
    }

    /// Returns the section ID used by this element.
    pub fn section_id(&self) -> (r: usize)
        ensures
            r == self.spec_section_id(),
    {
        self.section_id
    }
}

/// Quadratic triangle element in 2D space, defined by six nodes.
#[derive(Debug, Clone, Copy, PartialEq)]
pub struct TriangleT6 {
    id: usize,
    node_ids: [usize; 6],
    material_id: usize,
    section_id: usize,
}

impl TriangleT6 {
    /// External element ID.
    pub closed spec fn spec_id(self) -> usize {
        self.id
    }

    /// External node IDs, in connectivity order.
    pub closed spec fn spec_node_ids(self) -> Seq<usize> {
        self.node_ids@
    }

    /// ID of the referenced material.
    pub closed spec fn spec_material_id(self) -> usize {
        self.material_id
    }

    /// ID of the referenced section.
    pub closed spec fn spec_section_id(self) -> usize {
        self.section_id
    }

    /// The connectivity list always has 6 entries.
    pub proof fn lemma_node_count(self)
        ensures
            self.spec_node_ids().len() == 6,
    {
    }

    /// Creates the element; its node IDs must be pairwise distinct.
    pub fn new(id: usize, node_ids: [usize; 6], material_id: usize, section_id: usize) -> (r: Result<
        Self,
        FemError,
    >)
        ensures
            all_distinct(node_ids@) ==> (r matches Ok(e) && e.spec_id() == id && e.spec_node_ids()
                == node_ids@ && e.spec_material_id() == material_id && e.spec_section_id() == section_id),
            !all_distinct(node_ids@) ==> (r matches Err(err) && err
                is InvalidElementConnectivity && err->element_id == id && err->node_ids@ == node_ids@),
    {
        if !has_distinct_ids(&node_ids) {
            return Err(FemError::InvalidElementConnectivity { element_id: id, node_ids: ids_to_vec(&node_ids) });
        }
        Ok(TriangleT6 { id, node_ids, material_id, section_id })
    }

    /// Returns the element ID.
    pub fn id(&self) -> (r: usize)
        ensures
            r == self.spec_id(),
    {
        self.id
    }

    /// Returns the node IDs in connectivity order.
    pub fn node_ids(&self) -> (r: [usize; 6])
        ensures
            r@ == self.spec_node_ids(),
    {
        self.node_ids
    }

    /// Returns the material ID used by this element.
    pub fn material_id(&self) -> (r: usize)
        ensures
            r == self.spec_material_id(),
    {
        self.material_id
    }

    /// Returns the section ID used by this element.
    pub fn section_id(&self) -> (r: usize)
        ensures
            r == self.spec_section_id(),
    {
        self.section_id
    }
}

/// Quadrilateral element in 2D space, defined by four nodes.
#[derive(Debug, Clone, Copy, PartialEq)]
pub struct QuadQ4 {
    id: usize,
    node_ids: [usize; 4],
    material_id: usize,
    section_id: usize,
}

impl QuadQ4 {
    /// External element ID.
    pub closed spec fn spec_id(self) -> usize {
        self.id
    }

    /// External node IDs, in connectivity order.
    pub closed spec fn spec_node_ids(self) -> Seq<usize> {
        self.node_ids@
    }

    /// ID of the referenced material.
    pub closed spec fn spec_material_id(self) -> usize {
        self.material_id
    }

    /// ID of the referenced section.
    pub closed spec fn spec_section_id(self) -> usize {
        self.section_id
    }

    /// The connectivity list always has 4 entries.
    pub proof fn lemma_node_count(self)
        ensures
            self.spec_node_ids().len() == 4,
    {
    }

    /// Creates the element; its node IDs must be pairwise distinct.
    pub fn new(id: usize, node_ids: [usize; 4], material_id: usize, section_id: usize) -> (r: Result<
        Self,
        FemError,
    >)
        ensures
            all_distinct(node_ids@) ==> (r matches Ok(e) && e.spec_id() == id && e.spec_node_ids()
                == node_ids@ && e.spec_material_id() == material_id && e.spec_section_id() == section_id),
            !all_distinct(node_ids@) ==> (r matches Err(err) && err
                is InvalidElementConnectivity && err->element_id == id && err->node_ids@ == node_ids@),
    {
        if !has_distinct_ids(&node_ids) {
            return Err(FemError::InvalidElementConnectivity { element_id: id, node_ids: ids_to_vec(&node_ids) });
        }
        Ok(QuadQ4 { id, node_ids, material_id, section_id })
    }

    /// Returns the element ID.
    pub fn id(&self) -> (r: usize)
        ensures
            r == self.spec_id(),
    {
        self.id
    }

    /// Returns the node IDs in connectivity order.
    pub fn node_ids(&self) -> (r: [usize; 4])
        ensures
            r@ == self.spec_node_ids(),
    {
        self.node_ids
    }

    /// Returns the material ID used by this element.
    pub fn material_id(&self) -> (r: usize)
        ensures
            r == self.spec_material_id(),
    {
        self.material_id
    }

    /// Returns the section ID used by this element.
    pub fn section_id(&self) -> (r: usize)
        ensures
            r == self.spec_section_id(),
    {
        self.section_id
    }
}

/// Quadratic serendipity quadrilateral element in 2D space, defined by eight nodes.
#[derive(Debug, Clone, Copy, PartialEq)]
pub struct QuadQ8 {
    id: usize,
    node_ids: [usize; 8],
    material_id: usize,
    section_id: usize,
}

impl QuadQ8 {
    /// External element ID.
    pub closed spec fn spec_id(self) -> usize {
        self.id
    }

    /// External node IDs, in connectivity order.
    pub closed spec fn spec_node_ids(self) -> Seq<usize> {
        self.node_ids@
    }

    /// ID of the referenced material.
    pub closed spec fn spec_material_id(self) -> usize {
        self.material_id
    }

    /// ID of the referenced section.
    pub closed spec fn spec_section_id(self) -> usize {
        self.section_id
    }

    /// The connectivity list always has 8 entries.
    pub proof fn lemma_node_count(self)
        ensures
            self.spec_node_ids().len() == 8,
    {
    }

    /// Creates the element; its node IDs must be pairwise distinct.
    pub fn new(id: usize, node_ids: [usize; 8], material_id: usize, section_id: usize) -> (r: Result<
        Self,
        FemError,
    >)
        ensures
            all_distinct(node_ids@) ==> (r matches Ok(e) && e.spec_id() == id && e.spec_node_ids()
                == node_ids@ && e.spec_material_id() == material_id && e.spec_section_id() == section_id),
            !all_distinct(node_ids@) ==> (r matches Err(err) && err
                is InvalidElementConnectivity && err->element_id == id && err->node_ids@ == node_ids@),
    {
        if !has_distinct_ids(&node_ids) {
            return Err(FemError::InvalidElementConnectivity { element_id: id, node_ids: ids_to_vec(&node_ids) });
        }
        Ok(QuadQ8 { id, node_ids, material_id, section_id })
    }

    /// Returns the element ID.
    pub fn id(&self) -> (r: usize)
        ensures
            r == self.spec_id(),
    {
        self.id
    }

    /// Returns the node IDs in connectivity order.
    pub fn node_ids(&self) -> (r: [usize; 8])
        ensures
            r@ == self.spec_node_ids(),
    {
        self.node_ids
    }

    /// Returns the material ID used by this element.
    pub fn material_id(&self) -> (r: usize)
        ensures
            r == self.spec_material_id(),
    {
        self.material_id
    }

    /// Returns the section ID used by this element.
    pub fn section_id(&self) -> (r: usize)
        ensures
            r == self.spec_section_id(),
    {
        self.section_id
    }
}

/// Enum representing the supported 2D element types.
#[derive(Debug, Clone, Copy, PartialEq)]
pub enum Element2D {
    Truss(Truss2D),
    Beam(Beam2D),
    TriangleT3(TriangleT3),
    TriangleT6(TriangleT6),
    QuadQ4(QuadQ4),
    QuadQ8(QuadQ8),
}

impl Element2D {
    /// External element ID.
    pub open spec fn spec_id(self) -> usize {
        match self {
            Element2D::Truss(e) => e.spec_id(),
            Element2D::Beam(e) => e.spec_id(),
            Element2D::TriangleT3(e) => e.spec_id(),
            Element2D::TriangleT6(e) => e.spec_id(),
            Element2D::QuadQ4(e) => e.spec_id(),
            Element2D::QuadQ8(e) => e.spec_id(),
        }
    }

    /// External node IDs, in connectivity order.
    pub open spec fn spec_node_ids(self) -> Seq<usize> {
        match self {
            Element2D::Truss(e) => e.spec_node_ids(),
            Element2D::Beam(e) => e.spec_node_ids(),
            Element2D::TriangleT3(e) => e.spec_node_ids(),
            Element2D::TriangleT6(e) => e.spec_node_ids(),
            Element2D::QuadQ4(e) => e.spec_node_ids(),
            Element2D::QuadQ8(e) => e.spec_node_ids(),
        }
    }

    /// ID of the referenced material.
    pub open spec fn spec_material_id(self) -> usize {
        match self {
            Element2D::Truss(e) => e.spec_material_id(),
            Element2D::Beam(e) => e.spec_material_id(),
            Element2D::TriangleT3(e) => e.spec_material_id(),
            Element2D::TriangleT6(e) => e.spec_material_id(),
            Element2D::QuadQ4(e) => e.spec_material_id(),
            Element2D::QuadQ8(e) => e.spec_material_id(),
        }
    }

    /// ID of the referenced section.
    pub open spec fn spec_section_id(self) -> usize {
        match self {
            Element2D::Truss(e) => e.spec_section_id(),
            Element2D::Beam(e) => e.spec_section_id(),
            Element2D::TriangleT3(e) => e.spec_section_id(),
            Element2D::TriangleT6(e) => e.spec_section_id(),
            Element2D::QuadQ4(e) => e.spec_section_id(),
            Element2D::QuadQ8(e) => e.spec_section_id(),
        }
    }

    /// Number of nodes of the element type.
    pub open spec fn spec_node_count(self) -> nat {
        match self {
            Element2D::Truss(_) => 2,
            Element2D::Beam(_) => 2,
            Element2D::TriangleT3(_) => 3,
            Element2D::TriangleT6(_) => 6,
            Element2D::QuadQ4(_) => 4,
            Element2D::QuadQ8(_) => 8,
        }
    }

    /// Diagnostic type name of the element.
    pub open spec fn spec_element_type(self) -> Seq<char> {
        match self {
            Element2D::Truss(_) => "truss"@,
            Element2D::Beam(_) => "beam"@,
            Element2D::TriangleT3(_) => "triangle_t3"@,
            Element2D::TriangleT6(_) => "triangle_t6"@,
            Element2D::QuadQ4(_) => "quad_q4"@,
            Element2D::QuadQ8(_) => "quad_q8"@,
        }
    }

    /// The section kind that the element type requires.
    pub open spec fn spec_section_kind(self) -> SectionKind {
        match self {
            Element2D::Truss(_) => SectionKind::Truss,
            Element2D::Beam(_) => SectionKind::Beam,
            Element2D::TriangleT3(_) => SectionKind::PlaneStress,
            Element2D::TriangleT6(_) => SectionKind::PlaneStress,
            Element2D::QuadQ4(_) => SectionKind::PlaneStress,
            Element2D::QuadQ8(_) => SectionKind::PlaneStress,
        }
    }

    /// The interpolation scheme of the element type.
    pub open spec fn spec_interpolation(self) -> Interpolation {
        match self {
            Element2D::Truss(_) => Interpolation::LinearLagrange,
            Element2D::Beam(_) => Interpolation::CubicHermite,
            Element2D::TriangleT3(_) => Interpolation::LinearTriangleT3,
            Element2D::TriangleT6(_) => Interpolation::QuadraticTriangleT6,
            Element2D::QuadQ4(_) => Interpolation::BilinearQuadQ4,
            Element2D::QuadQ8(_) => Interpolation::SerendipityQuadQ8,
        }
    }

    /// The degrees of freedom carried by every node of the element.
    pub open spec fn spec_dofs_per_node(self) -> Seq<Dof2D> {
        match self {
            Element2D::Beam(_) => seq![Dof2D::Ux, Dof2D::Uy, Dof2D::Rz],
            _ => seq![Dof2D::Ux, Dof2D::Uy],
        }
    }

    /// Both elements are of the same element type.
    pub open spec fn same_type(self, other: Element2D) -> bool {
        match (self, other) {
            (Element2D::Truss(_), Element2D::Truss(_)) => true,
            (Element2D::Beam(_), Element2D::Beam(_)) => true,
            (Element2D::TriangleT3(_), Element2D::TriangleT3(_)) => true,
            (Element2D::TriangleT6(_), Element2D::TriangleT6(_)) => true,
            (Element2D::QuadQ4(_), Element2D::QuadQ4(_)) => true,
            (Element2D::QuadQ8(_), Element2D::QuadQ8(_)) => true,
            _ => false,
        }
    }

    /// An element is determined by its type, ID, nodes, material and section.
    pub proof fn lemma_fields_determine(self, other: Element2D)
        requires
            self.same_type(other),
            self.spec_id() == other.spec_id(),
            self.spec_node_ids() == other.spec_node_ids(),
            self.spec_material_id() == other.spec_material_id(),
            self.spec_section_id() == other.spec_section_id(),
        ensures
            self == other,
    {
        match (self, other) {
            (Element2D::Truss(a), Element2D::Truss(b)) => {
                assert(a.node_ids =~= b.node_ids);
            },
            (Element2D::Beam(a), Element2D::Beam(b)) => {
                assert(a.node_ids =~= b.node_ids);
            },
            (Element2D::TriangleT3(a), Element2D::TriangleT3(b)) => {
                assert(a.node_ids =~= b.node_ids);
            },
            (Element2D::TriangleT6(a), Element2D::TriangleT6(b)) => {
                assert(a.node_ids =~= b.node_ids);
            },
            (Element2D::QuadQ4(a), Element2D::QuadQ4(b)) => {
                assert(a.node_ids =~= b.node_ids);
            },
            (Element2D::QuadQ8(a), Element2D::QuadQ8(b)) => {
                assert(a.node_ids =~= b.node_ids);
            },
            _ => {},
        }
    }

    /// The connectivity list has as many entries as the element type has nodes.
    pub proof fn lemma_node_count(self)
        ensures
            self.spec_node_ids().len() == self.spec_node_count(),
            2 <= self.spec_node_count() <= 8,
    {
        match self {
            Element2D::Truss(e) => e.lemma_node_count(),
            Element2D::Beam(e) => e.lemma_node_count(),
            Element2D::TriangleT3(e) => e.lemma_node_count(),
            Element2D::TriangleT6(e) => e.lemma_node_count(),
            Element2D::QuadQ4(e) => e.lemma_node_count(),
            Element2D::QuadQ8(e) => e.lemma_node_count(),
        }
    }

    /// Returns the ID of the element.
    pub fn id(&self) -> (r: usize)
        ensures
            r == self.spec_id(),
    {
        match self {
            Element2D::Truss(element) => element.id,
            Element2D::Beam(element) => element.id,
            Element2D::TriangleT3(element) => element.id,
            Element2D::TriangleT6(element) => element.id,
            Element2D::QuadQ4(element) => element.id,
            Element2D::QuadQ8(element) => element.id,
        }
    }

    /// Returns the element type name for diagnostics.
    pub fn element_type(&self) -> (r: &'static str)
        ensures
            r@ == self.spec_element_type(),
    {
        match self {
            Element2D::Truss(_) => "truss",
            Element2D::Beam(_) => "beam",
            Element2D::TriangleT3(_) => "triangle_t3",
            Element2D::TriangleT6(_) => "triangle_t6",
            Element2D::QuadQ4(_) => "quad_q4",
            Element2D::QuadQ8(_) => "quad_q8",
        }
    }

    /// Returns the node IDs associated with the element.
    pub fn node_ids(&self) -> (r: &[usize])
        ensures
            r@ == self.spec_node_ids(),
    {
        match self {
            Element2D::Truss(element) => &element.node_ids,
            Element2D::Beam(element) => &element.node_ids,
            Element2D::TriangleT3(element) => &element.node_ids,
            Element2D::TriangleT6(element) => &element.node_ids,
            Element2D::QuadQ4(element) => &element.node_ids,
            Element2D::QuadQ8(element) => &element.node_ids,
        }
    }

    /// Returns the section ID referenced by this element.
    pub fn section_id(&self) -> (r: usize)
        ensures
            r == self.spec_section_id(),
    {
        match self {
            Element2D::Truss(element) => element.section_id(),
            Element2D::Beam(element) => element.section_id(),
            Element2D::TriangleT3(element) => element.section_id(),
            Element2D::TriangleT6(element) => element.section_id(),
            Element2D::QuadQ4(element) => element.section_id(),
            Element2D::QuadQ8(element) => element.section_id(),
        }
    }

    /// Returns the material ID referenced by this element.
    pub fn material_id(&self) -> (r: usize)
        ensures
            r == self.spec_material_id(),
    {
        match self {
            Element2D::Truss(element) => element.material_id(),
            Element2D::Beam(element) => element.material_id(),
            Element2D::TriangleT3(element) => element.material_id(),
            Element2D::TriangleT6(element) => element.material_id(),
            Element2D::QuadQ4(element) => element.material_id(),
            Element2D::QuadQ8(element) => element.material_id(),
        }
    }

    /// Returns the interpolation type used for the element.
    pub fn interpolation(&self) -> (r: Interpolation)
        ensures
            r == self.spec_interpolation(),
    {
        match self {
            Element2D::Truss(_) => Interpolation::LinearLagrange,
            Element2D::Beam(_) => Interpolation::CubicHermite,
            Element2D::TriangleT3(_) => Interpolation::LinearTriangleT3,
            Element2D::TriangleT6(_) => Interpolation::QuadraticTriangleT6,
            Element2D::QuadQ4(_) => Interpolation::BilinearQuadQ4,
            Element2D::QuadQ8(_) => Interpolation::SerendipityQuadQ8,
        }
    }

    /// Returns the degrees of freedom associated with each node of the element.
    pub fn dofs_per_node(&self) -> (r: &'static [Dof2D])
        ensures
            r@ == self.spec_dofs_per_node(),
    {
        match self {
            Element2D::Beam(_) => &[Dof2D::Ux, Dof2D::Uy, Dof2D::Rz],
            _ => &[Dof2D::Ux, Dof2D::Uy],
        }
    }

    /// Returns the total number of degrees of freedom of the element.
    pub fn dof_count(&self) -> (r: usize)
        ensures
            r == self.spec_node_count() * self.spec_dofs_per_node().len(),
    {
        proof {
            self.lemma_node_count();
        }
        let nodes = self.node_ids().len();
        let dofs = self.dofs_per_node().len();
        assert(nodes * dofs <= 24) by (nonlinear_arith)
            requires
                nodes <= 8,
                dofs <= 3,
        ;
        nodes * dofs
    }

    /// Returns the expected section type name for diagnostics.
    pub fn expected_section_type(&self) -> (r: &'static str)
        ensures
            r@ == section_kind_name(self.spec_section_kind()),
    {
        self.section_kind().name()
    }

    /// Returns the section kind that the element type requires.
    pub fn section_kind(&self) -> (r: SectionKind)
        ensures
            r == self.spec_section_kind(),
    {
        match self {
            Element2D::Truss(_) => SectionKind::Truss,
            Element2D::Beam(_) => SectionKind::Beam,
            Element2D::TriangleT3(_) => SectionKind::PlaneStress,
            Element2D::TriangleT6(_) => SectionKind::PlaneStress,
            Element2D::QuadQ4(_) => SectionKind::PlaneStress,
            Element2D::QuadQ8(_) => SectionKind::PlaneStress,
        }
    }

    /// Checks that a section has the expected kind for this element.
    pub fn validate_section(&self, section: SectionKind) -> (r: Result<(), FemError>)
        ensures
            section == self.spec_section_kind() ==> r is Ok,
            section != self.spec_section_kind() ==> r == Err::<(), FemError>(
                FemError::InvalidSectionType {
                    section_id: self.spec_section_id(),
                    expected: self.spec_section_kind(),
                    actual: section,
                },
            ),
    {
        let expected = self.section_kind();
        if expected == section {
            Ok(())
        } else {
            Err(FemError::InvalidSectionType { section_id: self.section_id(), expected, actual: section })
        }
    }
}

/// The section an element requires follows from its shape: elements with three or
/// more nodes are plane-stress continuum elements and take a plane-stress section;
/// the two-node element that carries rotations is the beam and takes a beam section;
/// the two-node element without rotations is the truss and takes a truss section.
pub proof fn lemma_section_kind_by_shape(element: Element2D)
    ensures
        element.spec_section_kind() == SectionKind::PlaneStress <==> element.spec_node_count() >= 3,
        element.spec_section_kind() == SectionKind::Beam <==> element.spec_dofs_per_node().contains(Dof2D::Rz),
        element.spec_section_kind() == SectionKind::Truss <==> (element.spec_node_count() == 2
            && !element.spec_dofs_per_node().contains(Dof2D::Rz)),
{
    let dofs = element.spec_dofs_per_node();
    if dofs.len() == 3 {
        assert(dofs[2] == Dof2D::Rz);
    } else {
        assert(dofs.len() == 2);
        assert(dofs[0] == Dof2D::Ux && dofs[1] == Dof2D::Uy);
        assert(!dofs.contains(Dof2D::Rz));
    }
}

/// Every element carries the two translations at each node, and only the beam also
/// carries the rotation, so a node has three DOFs exactly in a beam.
pub proof fn lemma_dofs_by_shape(element: Element2D)
    ensures
        element.spec_dofs_per_node().contains(Dof2D::Ux),
        element.spec_dofs_per_node().contains(Dof2D::Uy),
        element.spec_dofs_per_node().contains(Dof2D::Rz) <==> element is Beam,
        element.spec_dofs_per_node().len() == if element is Beam { 3nat } else { 2nat },
{
    let dofs = element.spec_dofs_per_node();
    assert(dofs[0] == Dof2D::Ux && dofs[1] == Dof2D::Uy);
    if !(element is Beam) {
        assert(!dofs.contains(Dof2D::Rz));
    } else {
        assert(dofs[2] == Dof2D::Rz);
    }
}

/// The interpolation of an element matches its node count: two-node elements
/// interpolate along a line (cubic Hermite for the beam, which carries rotations),
/// and the plane elements use the triangle or quadrilateral scheme of their node count.
pub proof fn lemma_interpolation_by_shape(element: Element2D)
    ensures
        element.spec_node_count() == 2 && element.spec_dofs_per_node().contains(Dof2D::Rz)
            <==> element.spec_interpolation() == Interpolation::CubicHermite,
        element.spec_node_count() == 2 && !element.spec_dofs_per_node().contains(Dof2D::Rz)
            <==> element.spec_interpolation() == Interpolation::LinearLagrange,
        element.spec_node_count() == 3 <==> element.spec_interpolation() == Interpolation::LinearTriangleT3,
        element.spec_node_count() == 6 <==> element.spec_interpolation() == Interpolation::QuadraticTriangleT6,
        element.spec_node_count() == 4 <==> element.spec_interpolation() == Interpolation::BilinearQuadQ4,
        element.spec_node_count() == 8 <==> element.spec_interpolation() == Interpolation::SerendipityQuadQ8,
{
    lemma_dofs_by_shape(element);
}

} // verus!
