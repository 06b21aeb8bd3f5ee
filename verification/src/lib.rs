//! A minimal in-memory relational data engine: a typed value model, a
//! columnar/row-oriented container, and a small set of relational-algebra
//! primitives (projection by name or position, comparison, selection).

pub mod operators;
pub mod types;
