//! A verified compile-and-evaluate pipeline for textual arithmetic
//! expressions: lexical analysis, shunting-yard reordering into Reverse
//! Polish order, syntax-tree construction, tree-level simplification, and
//! post-order evaluation with exact decimal arithmetic.

pub mod analyzer;
pub mod decimal;
pub mod error;
pub mod interpreter;
pub mod laws;
pub mod number;
