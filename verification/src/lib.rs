pub mod ast;
pub mod codegen;
pub mod ext;
pub mod hir;
pub mod interner;
pub mod lexer;
pub mod mir;
pub mod number;
pub mod parser;
pub mod text;
pub mod type_checker;
