//! The evaluating half of the pipeline: one node's evaluation from its
//! already-evaluated operands, and the post-order walk over a whole
//! tree.

pub mod engine;
pub mod interpreter;
