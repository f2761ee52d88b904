//! Interpolation schemes used to approximate a displacement field inside an element.
use vstd::prelude::*;

verus! {

/// Interpolation used to approximate a displacement field inside an element.
#[derive(Debug, Clone, Copy, PartialEq, Eq, Structural)]
pub enum Interpolation {
    /// Two-node linear Lagrange interpolation.
    LinearLagrange,
    /// Two-node cubic Hermite interpolation used by beam elements.
    CubicHermite,
    /// Linear interpolation over a three-node triangle.
    LinearTriangleT3,
    /// Quadratic interpolation over a six-node triangle.
    QuadraticTriangleT6,
    /// Bilinear interpolation over a four-node quadrilateral.
    BilinearQuadQ4,
    /// Quadratic serendipity interpolation over an eight-node quadrilateral.
    SerendipityQuadQ8,
}

} // verus!
