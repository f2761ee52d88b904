//! Kinds of element loads and the element types they apply to.
use vstd::prelude::*;

verus! {

/// Coordinate system used to interpret an element load vector.
#[derive(Debug, Clone, Copy, PartialEq, Eq, Structural)]
pub enum LoadCoordinateSystem2D {
    /// Components are given in the model's global x/y coordinate system.
    Global,
    /// Components are given in the load-specific local x/y coordinate system.
    Local,
}

/// The kinds of loads that act over an element rather than at a node.
#[derive(Debug, Clone, Copy, PartialEq, Eq, Structural)]
pub enum ElementLoadKind {
    /// Uniform line load along a beam element.
    BeamUniformLine,
    /// Uniform traction along one edge of a plane-stress element.
    EdgeTraction,
    /// Uniform body force over a plane-stress element.
    BodyForce,
    /// Self-weight over a plane-stress element.
    SelfWeight,
}

/// Stable type name of an element load kind.
pub open spec fn load_type_name(kind: ElementLoadKind) -> Seq<char> {
    match kind {
        ElementLoadKind::BeamUniformLine => "beam_uniform_line"@,
        ElementLoadKind::EdgeTraction => "edge_traction"@,
        ElementLoadKind::BodyForce => "body_force"@,
        ElementLoadKind::SelfWeight => "self_weight"@,
    }
}

/// Name of the element type that an element load kind expects.
pub open spec fn expected_element_type_name(kind: ElementLoadKind) -> Seq<char> {
    match kind {
        ElementLoadKind::BeamUniformLine => "beam"@,
        _ => "triangle_t3"@,
    }
}

impl ElementLoadKind {
    /// Returns a stable load type name for diagnostics.
    pub fn load_type(self) -> (r: &'static str)
        ensures
            r@ == load_type_name(self),
    {
        match self {
            ElementLoadKind::BeamUniformLine => "beam_uniform_line",
            ElementLoadKind::EdgeTraction => "edge_traction",
            ElementLoadKind::BodyForce => "body_force",
            ElementLoadKind::SelfWeight => "self_weight",
        }
    }

    /// Returns the element type name expected by this load kind.
    pub fn expected_element_type(self) -> (r: &'static str)
        ensures
            r@ == expected_element_type_name(self),
    {
        match self {
            ElementLoadKind::BeamUniformLine => "beam",
            _ => "triangle_t3",
        }
    }
}

} // verus!
