//! From the text of a program to its syntax tree.
pub mod decls;
pub mod depth;
pub mod exprs;
pub mod grammar;
pub mod node;
pub mod program;

pub use program::parse_program;
