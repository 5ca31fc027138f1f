//! Atlas77 compiler core: lexer, type representations, monomorphization helpers,
//! C code generation and C-header packaging helpers, with their contracts.
pub mod text;
pub mod utils;
pub mod lexer;
pub mod hir;
pub mod lir;
pub mod codegen;
pub mod package;
pub mod config;
pub mod tinycc;
