pub mod bar_1d;
pub mod element_2d;
pub mod interpolation;

pub use element_2d::{Beam2D, Element2D, QuadQ4, QuadQ8, TriangleT3, TriangleT6, Truss2D};
pub use interpolation::Interpolation;
