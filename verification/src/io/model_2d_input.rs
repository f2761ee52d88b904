//! Plain input records of the model description format and their conversion into
//! model types. Serialization lives with the program that reads the files.
use vstd::prelude::*;
use vstd::std_specs::convert::FromSpec;

use crate::elements::element_2d::{Beam2D, Element2D, QuadQ4, QuadQ8, TriangleT3, TriangleT6, Truss2D};
use crate::error::FemError;
use crate::model::analysis_settings::SolverKind2D;
use crate::model::dof::Dof2D;
use crate::model::element_load::LoadCoordinateSystem2D;

verus! {

/// Solver selector of the input format.
#[derive(Debug, Clone, Copy, PartialEq, Eq, Structural)]
pub enum SolverKind2DInput {
    Dense,
    Sparse,
}

/// Degree of freedom of the input format.
#[derive(Debug, Clone, Copy, PartialEq, Eq, Structural)]
pub enum Dof2DInput {
    Ux,
    Uy,
    Rz,
}

/// Coordinate system of an element load in the input format.
#[derive(Debug, Clone, Copy, PartialEq, Eq, Structural)]
pub enum LoadCoordinateSystem2DInput {
    Global,
    Local,
}

/// Element definition of the input format.
#[derive(Debug, Clone, Copy, PartialEq, Eq)]
pub enum ElementType2DInput {
    Truss { id: usize, nodes: [usize; 2], material: usize, section: usize },
    Beam { id: usize, nodes: [usize; 2], material: usize, section: usize },
    TriangleT3 { id: usize, nodes: [usize; 3], material: usize, section: usize },
    T6 { id: usize, nodes: [usize; 6], material: usize, section: usize },
    Q4 { id: usize, nodes: [usize; 4], material: usize, section: usize },
    Q8 { id: usize, nodes: [usize; 8], material: usize, section: usize },
}

/// Solver selector written to the input format.
impl From<SolverKind2D> for SolverKind2DInput {
    fn from(value: SolverKind2D) -> (r: Self) {
        match value {
            SolverKind2D::Dense => SolverKind2DInput::Dense,
            SolverKind2D::Sparse => SolverKind2DInput::Sparse,
        }
    }
}

impl vstd::std_specs::convert::FromSpecImpl<SolverKind2D> for SolverKind2DInput {
    open spec fn obeys_from_spec() -> bool {
        true
    }

    open spec fn from_spec(value: SolverKind2D) -> Self {
        match value {
            SolverKind2D::Dense => SolverKind2DInput::Dense,
            SolverKind2D::Sparse => SolverKind2DInput::Sparse,
        }
    }
}

/// Solver selector read from the input format.
impl From<SolverKind2DInput> for SolverKind2D {
    fn from(value: SolverKind2DInput) -> (r: Self) {
        match value {
            SolverKind2DInput::Dense => SolverKind2D::Dense,
            SolverKind2DInput::Sparse => SolverKind2D::Sparse,
        }
    }
}

impl vstd::std_specs::convert::FromSpecImpl<SolverKind2DInput> for SolverKind2D {
    open spec fn obeys_from_spec() -> bool {
        true
    }

    open spec fn from_spec(value: SolverKind2DInput) -> Self {
        match value {
            SolverKind2DInput::Dense => SolverKind2D::Dense,
            SolverKind2DInput::Sparse => SolverKind2D::Sparse,
        }
    }
}

/// Degree of freedom written to the input format.
impl From<Dof2D> for Dof2DInput {
    fn from(value: Dof2D) -> (r: Self) {
        match value {
            Dof2D::Ux => Dof2DInput::Ux,
            Dof2D::Uy => Dof2DInput::Uy,
            Dof2D::Rz => Dof2DInput::Rz,
        }
    }
}

impl vstd::std_specs::convert::FromSpecImpl<Dof2D> for Dof2DInput {
    open spec fn obeys_from_spec() -> bool {
        true
    }

    open spec fn from_spec(value: Dof2D) -> Self {
        match value {
            Dof2D::Ux => Dof2DInput::Ux,
            Dof2D::Uy => Dof2DInput::Uy,
            Dof2D::Rz => Dof2DInput::Rz,
        }
    }
}

/// Degree of freedom read from the input format.
impl From<Dof2DInput> for Dof2D {
    fn from(value: Dof2DInput) -> (r: Self) {
        match value {
            Dof2DInput::Ux => Dof2D::Ux,
            Dof2DInput::Uy => Dof2D::Uy,
            Dof2DInput::Rz => Dof2D::Rz,
        }
    }
}

impl vstd::std_specs::convert::FromSpecImpl<Dof2DInput> for Dof2D {
    open spec fn obeys_from_spec() -> bool {
        true
    }

    open spec fn from_spec(value: Dof2DInput) -> Self {
        match value {
            Dof2DInput::Ux => Dof2D::Ux,
            Dof2DInput::Uy => Dof2D::Uy,
            Dof2DInput::Rz => Dof2D::Rz,
        }
    }
}

/// Load coordinate system written to the input format.
impl From<LoadCoordinateSystem2D> for LoadCoordinateSystem2DInput {
    fn from(value: LoadCoordinateSystem2D) -> (r: Self) {
        match value {
            LoadCoordinateSystem2D::Global => LoadCoordinateSystem2DInput::Global,
            LoadCoordinateSystem2D::Local => LoadCoordinateSystem2DInput::Local,
        }
    }
}

impl vstd::std_specs::convert::FromSpecImpl<LoadCoordinateSystem2D> for LoadCoordinateSystem2DInput {
    open spec fn obeys_from_spec() -> bool {
        true
    }

    open spec fn from_spec(value: LoadCoordinateSystem2D) -> Self {
        match value {
            LoadCoordinateSystem2D::Global => LoadCoordinateSystem2DInput::Global,
            LoadCoordinateSystem2D::Local => LoadCoordinateSystem2DInput::Local,
        }
    }
}

/// Load coordinate system read from the input format.
impl From<LoadCoordinateSystem2DInput> for LoadCoordinateSystem2D {
    fn from(value: LoadCoordinateSystem2DInput) -> (r: Self) {
        match value {
            LoadCoordinateSystem2DInput::Global => LoadCoordinateSystem2D::Global,
            LoadCoordinateSystem2DInput::Local => LoadCoordinateSystem2D::Local,
        }
    }
}

impl vstd::std_specs::convert::FromSpecImpl<LoadCoordinateSystem2DInput> for LoadCoordinateSystem2D {
    open spec fn obeys_from_spec() -> bool {
        true
    }

    open spec fn from_spec(value: LoadCoordinateSystem2DInput) -> Self {
        match value {
            LoadCoordinateSystem2DInput::Global => LoadCoordinateSystem2D::Global,
            LoadCoordinateSystem2DInput::Local => LoadCoordinateSystem2D::Local,
        }
    }
}

/// Converting a solver kind, a degree of freedom or a load coordinate system to its
/// input-format record and back gives the value it started from.
pub proof fn lemma_enum_records_round_trip(solver: SolverKind2D, dof: Dof2D, system: LoadCoordinateSystem2D)
    ensures
        <SolverKind2D as FromSpec<SolverKind2DInput>>::from_spec(
            <SolverKind2DInput as FromSpec<SolverKind2D>>::from_spec(solver),
        ) == solver,
        <Dof2D as FromSpec<Dof2DInput>>::from_spec(<Dof2DInput as FromSpec<Dof2D>>::from_spec(dof)) == dof,
        <LoadCoordinateSystem2D as FromSpec<LoadCoordinateSystem2DInput>>::from_spec(
            <LoadCoordinateSystem2DInput as FromSpec<LoadCoordinateSystem2D>>::from_spec(system),
        ) == system,
{
}

/// Converting between the model's enums and the input-format records keeps the variant
/// in both directions: a solver kind keeps being dense or sparse, a degree of freedom
/// keeps its direction, and a load coordinate system keeps being global or local.
pub proof fn lemma_enum_records_keep_variant(
    solver: SolverKind2D,
    solver_record: SolverKind2DInput,
    dof: Dof2D,
    dof_record: Dof2DInput,
    system: LoadCoordinateSystem2D,
    system_record: LoadCoordinateSystem2DInput,
)
    ensures
        (<SolverKind2DInput as FromSpec<SolverKind2D>>::from_spec(solver) is Dense) <==> (solver is Dense),
        (<SolverKind2DInput as FromSpec<SolverKind2D>>::from_spec(solver) is Sparse) <==> (solver is Sparse),
        (<SolverKind2D as FromSpec<SolverKind2DInput>>::from_spec(solver_record) is Dense) <==> (solver_record is Dense),
        (<SolverKind2D as FromSpec<SolverKind2DInput>>::from_spec(solver_record) is Sparse) <==> (solver_record is Sparse),
        (<Dof2DInput as FromSpec<Dof2D>>::from_spec(dof) is Ux) <==> (dof is Ux),
        (<Dof2DInput as FromSpec<Dof2D>>::from_spec(dof) is Uy) <==> (dof is Uy),
        (<Dof2DInput as FromSpec<Dof2D>>::from_spec(dof) is Rz) <==> (dof is Rz),
        (<Dof2D as FromSpec<Dof2DInput>>::from_spec(dof_record) is Ux) <==> (dof_record is Ux),
        (<Dof2D as FromSpec<Dof2DInput>>::from_spec(dof_record) is Uy) <==> (dof_record is Uy),
        (<Dof2D as FromSpec<Dof2DInput>>::from_spec(dof_record) is Rz) <==> (dof_record is Rz),
        (<LoadCoordinateSystem2DInput as FromSpec<LoadCoordinateSystem2D>>::from_spec(system) is Global) <==> (system is Global),
        (<LoadCoordinateSystem2DInput as FromSpec<LoadCoordinateSystem2D>>::from_spec(system) is Local) <==> (system is Local),
        (<LoadCoordinateSystem2D as FromSpec<LoadCoordinateSystem2DInput>>::from_spec(system_record) is Global) <==> (
        system_record is Global),
        (<LoadCoordinateSystem2D as FromSpec<LoadCoordinateSystem2DInput>>::from_spec(system_record) is Local) <==> (
        system_record is Local),
{
}

/// The fields `(ID, node IDs, material ID, section ID)` of an element record.
pub open spec fn element_record_fields(record: ElementType2DInput) -> (usize, Seq<usize>, usize, usize) {
    match record {
            ElementType2DInput::Truss { id, nodes, material, section } => (id, nodes@, material, section),
            ElementType2DInput::Beam { id, nodes, material, section } => (id, nodes@, material, section),
            ElementType2DInput::TriangleT3 { id, nodes, material, section } => (id, nodes@, material, section),
            ElementType2DInput::T6 { id, nodes, material, section } => (id, nodes@, material, section),
            ElementType2DInput::Q4 { id, nodes, material, section } => (id, nodes@, material, section),
            ElementType2DInput::Q8 { id, nodes, material, section } => (id, nodes@, material, section),
    }
}

/// The record describes the element: same element type, ID, nodes, material and section.
pub open spec fn describes(record: ElementType2DInput, element: Element2D) -> bool {
    &&& same_element_type(record, element)
    &&& element_record_fields(record) == (
        element.spec_id(),
        element.spec_node_ids(),
        element.spec_material_id(),
        element.spec_section_id(),
    )
}

/// A record describes at most one element, so the element built from the record of
/// an element is that element.
pub proof fn lemma_record_describes_one_element(record: ElementType2DInput, a: Element2D, b: Element2D)
    requires
        describes(record, a),
        describes(record, b),
    ensures
        a == b,
{
    assert(a.same_type(b));
    a.lemma_fields_determine(b);
}

/// The record and the element are of the same element type.
pub open spec fn same_element_type(record: ElementType2DInput, element: Element2D) -> bool {
    match (record, element) {
        (ElementType2DInput::Truss { .. }, Element2D::Truss(_)) => true,
        (ElementType2DInput::Beam { .. }, Element2D::Beam(_)) => true,
        (ElementType2DInput::TriangleT3 { .. }, Element2D::TriangleT3(_)) => true,
        (ElementType2DInput::T6 { .. }, Element2D::TriangleT6(_)) => true,
        (ElementType2DInput::Q4 { .. }, Element2D::QuadQ4(_)) => true,
        (ElementType2DInput::Q8 { .. }, Element2D::QuadQ8(_)) => true,
        _ => false,
    }
}

impl ElementType2DInput {
    /// Builds the element described by the record; the node IDs must be pairwise distinct.
    pub fn into_element(self) -> (r: Result<Element2D, FemError>)
        ensures
            crate::elements::element_2d::all_distinct(element_record_fields(self).1) ==> (r matches Ok(e)
                && describes(self, e)),
            !crate::elements::element_2d::all_distinct(element_record_fields(self).1) ==> (r matches Err(err)
                && err is InvalidElementConnectivity && err->element_id == element_record_fields(self).0
                && err->node_ids@ == element_record_fields(self).1),
    {
        match self {
            ElementType2DInput::Truss { id, nodes, material, section } => match Truss2D::new(id, nodes, material, section) {
                Ok(e) => Ok(Element2D::Truss(e)),
                Err(e) => Err(e),
            },
            ElementType2DInput::Beam { id, nodes, material, section } => match Beam2D::new(id, nodes, material, section) {
                Ok(e) => Ok(Element2D::Beam(e)),
                Err(e) => Err(e),
            },
            ElementType2DInput::TriangleT3 { id, nodes, material, section } => match TriangleT3::new(id, nodes, material, section) {
                Ok(e) => Ok(Element2D::TriangleT3(e)),
                Err(e) => Err(e),
            },
            ElementType2DInput::T6 { id, nodes, material, section } => match TriangleT6::new(id, nodes, material, section) {
                Ok(e) => Ok(Element2D::TriangleT6(e)),
                Err(e) => Err(e),
            },
            ElementType2DInput::Q4 { id, nodes, material, section } => match QuadQ4::new(id, nodes, material, section) {
                Ok(e) => Ok(Element2D::QuadQ4(e)),
                Err(e) => Err(e),
            },
            ElementType2DInput::Q8 { id, nodes, material, section } => match QuadQ8::new(id, nodes, material, section) {
                Ok(e) => Ok(Element2D::QuadQ8(e)),
                Err(e) => Err(e),
            },
        }
    }

    /// Describes an element as an input record.
    pub fn from_element(value: &Element2D) -> (r: Self)
        ensures
            describes(r, *value),
    {
        let id = value.id();
        let nodes = value.node_ids();
        let material = value.material_id();
        let section = value.section_id();
        let r = match value {
            Element2D::Truss(_) => {
                proof {
                    value.lemma_node_count();
                }
                ElementType2DInput::Truss { id, nodes: [nodes[0], nodes[1]], material, section }
            },
            Element2D::Beam(_) => {
                proof {
                    value.lemma_node_count();
                }
                ElementType2DInput::Beam { id, nodes: [nodes[0], nodes[1]], material, section }
            },
            Element2D::TriangleT3(_) => {
                proof {
                    value.lemma_node_count();
                }
                ElementType2DInput::TriangleT3 { id, nodes: [nodes[0], nodes[1], nodes[2]], material, section }
            },
            Element2D::TriangleT6(_) => {
                proof {
                    value.lemma_node_count();
                }
                ElementType2DInput::T6 { id, nodes: [nodes[0], nodes[1], nodes[2], nodes[3], nodes[4], nodes[5]], material, section }
            },
            Element2D::QuadQ4(_) => {
                proof {
                    value.lemma_node_count();
                }
                ElementType2DInput::Q4 { id, nodes: [nodes[0], nodes[1], nodes[2], nodes[3]], material, section }
            },
            Element2D::QuadQ8(_) => {
                proof {
                    value.lemma_node_count();
                }
                ElementType2DInput::Q8 { id, nodes: [nodes[0], nodes[1], nodes[2], nodes[3], nodes[4], nodes[5], nodes[6], nodes[7]], material, section }
            },
        };
        assert(element_record_fields(r).1 =~= value.spec_node_ids());
        r
    }
}

} // verus!
