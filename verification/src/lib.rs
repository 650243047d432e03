pub mod text;
pub mod lexer;
pub mod parser;
pub mod formatter;
pub mod hir;
pub mod version;
pub mod codegen;
pub mod borrow_check;
pub mod diagnostics;
pub mod manifest;
pub mod deps;
pub mod rlib;
pub mod resolve_deps;
pub mod module_discovery;
pub mod resolve;
