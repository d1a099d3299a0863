//! Trace builders for barretenberg circuits.
//!
//! The crate has two halves. The emitters of [`trace_builder`] write the C++
//! trace builder of a circuit from its column names. The other modules do in
//! Rust what the emitted code does: [`field`] decodes field elements,
//! [`schema`] checks the column names, [`trace`] reads the rows and fills
//! their shifts, [`polynomials`] lays the rows out by column over the
//! subgroup of [`subgroup`], [`relation`] evaluates a relation on the
//! result, and [`circuit`] holds one run of all that.

pub mod circuit;
pub mod circuit_builder;
pub mod field;
pub mod polynomials;
pub mod relation;
pub mod schema;
pub mod subgroup;
pub mod templates;
pub mod text;
pub mod trace;
pub mod trace_builder;
