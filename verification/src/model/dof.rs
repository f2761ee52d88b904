//! Degrees of freedom of a two-dimensional node.
use vstd::prelude::*;

verus! {

/// 2D degrees of freedom (DOF) for nodes.
#[derive(Debug, Clone, Copy, PartialEq, Eq, Hash, Structural)]
pub enum Dof2D {
    /// Displacement in the x-direction.
    Ux,
    /// Displacement in the y-direction.
    Uy,
    /// Rotation about the z-axis.
    Rz,
}

impl Dof2D {
    /// Returns the diagnostic name of the degree of freedom.
    pub fn name(self) -> (name: &'static str)
        ensures
            name@ == dof_name(self),
    {
        match self {
            Dof2D::Ux => "Ux",
            Dof2D::Uy => "Uy",
            Dof2D::Rz => "Rz",
        }
    }
}

/// The diagnostic name of a degree of freedom.
pub open spec fn dof_name(dof: Dof2D) -> Seq<char> {
    match dof {
        Dof2D::Ux => "Ux"@,
        Dof2D::Uy => "Uy"@,
        Dof2D::Rz => "Rz"@,
    }
}

} // verus!
