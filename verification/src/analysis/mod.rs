pub mod iterative_solver;
pub mod linear_system;
pub mod load_vector;
pub mod sparse;
pub mod stress_recovery;

pub use sparse::{CooMatrix, CsrMatrix};
pub use stress_recovery::QuadQ4RecoveryMode2D;
