//! Scanner and parser library.

pub mod ast;
pub mod ast_printer;
pub mod errors;
pub mod parser;
pub mod scanner;
pub mod tokens;
