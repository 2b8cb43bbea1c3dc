//! Rewrites a compiled portable-bytecode module, built against an
//! integer-only placeholder ABI, into one that runs inside the fixpoint host
//! environment: imports are replaced by synthesized local definitions, every
//! call site is retargeted, and a catalog-driven family of ABI adapters
//! bridges between integer handles and opaque host references through a
//! shared indirection table.
//!
//! The library works on its own model of a module (`model`); reading and
//! writing the binary format is left to an embedder.

pub mod model;
pub mod catalog;
pub mod generator;
pub mod pipeline;
pub mod semantics;
pub mod replace;
