//! Laws of evaluation.
pub mod apply;
pub mod block;
pub mod cost;
pub mod rules;
pub mod sbox;
pub mod sequence;
pub mod views;
