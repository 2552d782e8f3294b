//! Placement of LDtk level content.
//!
//! The crate has two independent halves. [`registry`] holds the table that
//! maps an optional layer identifier and an optional item identifier to a
//! spawn factory, and resolves a concrete pair to the most specific
//! registration; [`register_ldtk_objects`] holds the two such tables that a
//! world needs, one for entities and one for IntGrid cells. [`utils`] holds
//! the integer geometry that carries LDtk's top-left, Y-down coordinates
//! into a bottom-left, Y-up space. [`ldtk`] and [`components`] hold the
//! plain records both halves read.
//!
//! Nothing here is floating point: a point that may fall on half a pixel is
//! kept doubled, and a scale is kept as the two sizes whose ratio it is.

pub mod components;
pub mod ldtk;
pub mod register_ldtk_objects;
pub mod registry;
pub mod utils;
