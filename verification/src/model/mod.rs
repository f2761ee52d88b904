pub mod dof;
pub mod materials;
pub mod sections;
pub mod topology;
pub mod dof_numbering;
pub mod analysis_space;
pub mod bar_model_1d;
pub mod analysis_settings;
pub mod element_load;

pub use analysis_settings::SolverKind2D;
pub use analysis_space::AnalysisSpace;
pub use dof::Dof2D;
pub use dof_numbering::DofNumbering2D;
pub use element_load::{ElementLoadKind, LoadCoordinateSystem2D};
pub use materials::DEFAULT_MATERIAL_ID;
pub use sections::SectionKind;
pub use topology::ModelTopology2D;
