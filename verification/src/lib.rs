//! Verified pieces of an ErgoTree node.
pub mod autolykos_solution;
pub mod chain;
pub mod cost;
pub mod cost_oracle;
pub mod env;
pub mod error;
pub mod eval;
pub mod expr;
pub mod laws;
pub mod semantics;
pub mod serialization;
pub mod text;
pub mod types;
pub mod validation;
pub mod value;
pub mod vlq;
