//! Material identifiers.
use vstd::prelude::*;

verus! {

/// Material ID used by the single-material model API.
pub const DEFAULT_MATERIAL_ID: usize = 0;

} // verus!
