//! Two- or three-dimensional analysis spaces.
use vstd::prelude::*;

use crate::error::FemError;
use crate::text::{ascii_lowercase, chars_eq, chars_of, to_ascii_lowercase_chars, trim, trim_chars};

verus! {

/// Describes whether the FEM model uses two or three spatial dimensions.
#[derive(Debug, Clone, Copy, PartialEq, Eq, Structural)]
pub enum AnalysisSpace {
    TwoDimensional,
    ThreeDimensional,
}

impl AnalysisSpace {
    /// Returns the number of spatial dimensions for a given analysis space.
    pub fn spatial_dimension(self) -> (r: usize)
        ensures
            r == (match self {
                AnalysisSpace::TwoDimensional => 2usize,
                AnalysisSpace::ThreeDimensional => 3usize,
            }),
    {
        match self {
            AnalysisSpace::TwoDimensional => 2,
            AnalysisSpace::ThreeDimensional => 3,
        }
    }
}

/// The analysis space named by a text: `2`/`2d` or `3`/`3d`, ignoring ASCII case and
/// surrounding whitespace.
pub open spec fn analysis_space_of(value: Seq<char>) -> Option<AnalysisSpace> {
    let key = ascii_lowercase(trim(value));
    if key == "2"@ || key == "2d"@ {
        Some(AnalysisSpace::TwoDimensional)
    } else if key == "3"@ || key == "3d"@ {
        Some(AnalysisSpace::ThreeDimensional)
    } else {
        None
    }
}

/// Parses an analysis space name.
pub fn parse_analysis_space(value: &str) -> (r: Result<AnalysisSpace, FemError>)
    ensures
        r matches Ok(space) ==> analysis_space_of(value@) == Some(space),
        r is Err ==> analysis_space_of(value@) is None,
        r is Err ==> (r matches Err(FemError::InvalidAnalysisSpace { value: v }) && v@ == value@),
        analysis_space_of(value@) is None ==> r is Err,
{
    let chars = chars_of(value);
    let trimmed = trim_chars(&chars);
    let key = to_ascii_lowercase_chars(&trimmed);
    if chars_eq(&key, "2") || chars_eq(&key, "2d") {
        Ok(AnalysisSpace::TwoDimensional)
    } else if chars_eq(&key, "3") || chars_eq(&key, "3d") {
        Ok(AnalysisSpace::ThreeDimensional)
    } else {
        Err(FemError::InvalidAnalysisSpace { value: value.to_owned() })
    }
}

impl std::str::FromStr for AnalysisSpace {
    type Err = FemError;

    fn from_str(value: &str) -> (r: Result<Self, Self::Err>)
        ensures
            r matches Ok(space) ==> analysis_space_of(value@) == Some(space),
            analysis_space_of(value@) matches Some(space) ==> r == Ok::<AnalysisSpace, FemError>(space),
            analysis_space_of(value@) is None ==> (r matches Err(FemError::InvalidAnalysisSpace { value: v })
                && v@ == value@),
    {
        parse_analysis_space(value)
    }
}

} // verus!
