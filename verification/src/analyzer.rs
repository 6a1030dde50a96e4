//! The analysis half of the pipeline: tokens, lexer, reorderer, syntax
//! tree, and the semantic pass that validates and simplifies trees.

pub mod lexer;
pub mod parser;
pub mod semantic_analyzer;
pub mod syntax_tree;
pub mod token;
