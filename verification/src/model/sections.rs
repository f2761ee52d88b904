//! Kinds of cross-section definitions used by the 2D elements.
use vstd::prelude::*;

verus! {

/// The kind of a section definition; the section's numeric properties are held elsewhere.
#[derive(Debug, Clone, Copy, PartialEq, Eq, Structural)]
pub enum SectionKind {
    Truss,
    Beam,
    PlaneStress,
}

/// Stable diagnostic name of a section kind.
pub open spec fn section_kind_name(kind: SectionKind) -> Seq<char> {
    match kind {
        SectionKind::Truss => "truss"@,
        SectionKind::Beam => "beam"@,
        SectionKind::PlaneStress => "plane_stress"@,
    }
}

impl SectionKind {
    /// Returns the stable diagnostic name of the section kind.
    pub fn name(self) -> (name: &'static str)
        ensures
            name@ == section_kind_name(self),
    {
        match self {
            SectionKind::Truss => "truss",
            SectionKind::Beam => "beam",
            SectionKind::PlaneStress => "plane_stress",
        }
    }
}

} // verus!
