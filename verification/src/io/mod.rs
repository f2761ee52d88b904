pub mod model_2d_input;
pub mod result_2d_output;

pub use model_2d_input::{Dof2DInput, ElementType2DInput, LoadCoordinateSystem2DInput, SolverKind2DInput};
pub use result_2d_output::SolverTerminationReason2DOutput;
