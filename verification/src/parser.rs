//! The syntax tree.
pub mod ast;
