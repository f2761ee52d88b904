//! Recovery settings and element identification used by the stress recovery.
use vstd::prelude::*;

use crate::elements::element_2d::{Beam2D, Element2D, Truss2D};

verus! {

/// Where the responses of a four-node quadrilateral are reported.
#[derive(Debug, Clone, Copy, PartialEq, Eq, Structural)]
pub enum QuadQ4RecoveryMode2D {
    /// Recover one response at the element center.
    Center,
    /// Recover responses at the four `2x2` Gauss integration points.
    Gauss,
    /// Extrapolate the four Gauss-point responses to the element corners.
    Corner,
}

/// The element ID of a truss.
pub fn truss_element_id(truss: &Truss2D) -> (r: usize)
    ensures
        r == truss.spec_id(),
{
    Element2D::Truss(*truss).id()
}

/// The element ID of a beam.
pub fn beam_element_id(beam: &Beam2D) -> (r: usize)
    ensures
        r == beam.spec_id(),
{
    Element2D::Beam(*beam).id()
}

} // verus!
