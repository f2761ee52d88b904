//! Finite element model topology, degree-of-freedom numbering and input parsing.
use vstd::prelude::*;

pub mod analysis;
pub mod elements;
pub mod error;
pub mod interactive;
pub mod io;
pub mod model;
pub mod text;
pub mod visualisation;

pub use error::FemError;

verus! {

} // verus!
