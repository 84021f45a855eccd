pub mod ast;
pub mod codegen;
pub mod driver;
pub mod indent;
pub mod lexer;
pub mod names;
pub mod parser;
pub mod runner;
pub mod semantic;
pub mod stdlib;
pub mod text;
