//! Verified marshaling between a flat, C-style description of a conic
//! program and the clarabel solver's own data types.
//!
//! - `csc`: the sparse-matrix descriptor, its ownership tag, its builders and
//!   its conversion into the solver's matrix;
//! - `dense`: conversion between dense row-major buffers and descriptors;
//! - `cones`: translation of cone descriptions into the solver's cones;
//! - `settings`: the linear-solve backend's names;
//! - `problem`: gathering the constructor's inputs.
//!
//! Everything is generic over the element type, so one definition serves
//! both floating-point widths.

pub mod cones;
pub mod csc;
pub mod dense;
pub mod problem;
pub mod settings;

pub use cones::{convert_from_C_cone, convert_from_C_cones, ClarabelSupportedConeT};
pub use csc::{convert_from_C_CscMatrix, ClarabelCscMatrix, Ownership};
pub use problem::{prepare_problem, ProblemData};
pub use settings::{direct_solve_method_from_name, direct_solve_method_name};
