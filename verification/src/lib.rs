//! Semantic type core of a Rust IDE backend.
//!
//! The crate lowers syntactic type references of a High-level IR to a
//! closed algebra of type constructors, builds the declared type of
//! items per namespace, indexes the impl blocks of a crate by a coarse
//! type fingerprint, and resolves methods along the autoderef chain.
//! A snapshot database stands in for the memoizing query engine; all
//! functions here are pure in it.

pub mod completion;
pub mod hir;
pub mod lower;
pub mod method_resolution;
pub mod project;
pub mod ty;
