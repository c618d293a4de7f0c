//! Metal DOL: lexing, parsing and schema tooling for the DOL language.

pub mod assoc;
pub mod ast;
pub mod error;
pub mod text;
pub mod lexer;
pub mod message;
pub mod parser;
pub mod parse_determinism;
pub mod mcp;
pub mod lsp;
pub mod migrate;
pub mod network;
pub mod codegen;
pub mod repl;
pub mod orchestrator;
pub mod manifest;
pub mod hir;
