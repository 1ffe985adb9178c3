//! Synthesis of a foreign-function boundary layer for a body of source files.
//!
//! A source file is held as a [`model::SourceUnit`]: a tree of declarations in
//! which the parts that the rules read are structured and everything else is
//! carried as text. A run has two passes. The first walks every unit, gives
//! its public aggregate types a fixed layout, and accumulates candidate
//! functions, aggregate types and the symbols that are already exposed.
//! Between the passes the types are classified and the boundary declarations
//! synthesized. The second pass renders each unit with its share of them
//! appended.

pub mod annotate;
pub mod bridge;
pub mod bridge_laws;
pub mod collect;
pub mod driver;
pub mod eligibility;
pub mod marker;
pub mod model;
pub mod ownership;
pub mod pass;
pub mod render;
pub mod rules;
pub mod select;
pub mod syntax;
pub mod text;

