//! The front end of a small expression-oriented language: lexing, grammar
//! parsing and lexical-scope/symbol resolution, organized as a demand-driven
//! incremental pipeline. An [`engine::Session`] holds the source cell, the
//! name interner and the memo store; the derived queries — token sequence,
//! program, scope parent table, symbol table — recompute only what an edit
//! actually affects, with early cutoff on structurally unchanged values.
//!
//! Every stage carries a contract against a mathematical model of its
//! behavior: the lexer against a total token-segmentation function over the
//! source bytes, the recursive-descent parser against a functional grammar
//! specification, and the scope and symbol builders against traversal
//! functions over the syntax tree's image.

pub mod engine;
pub mod ids;
pub mod lexer;
pub mod parser;
pub mod spanned;
pub mod stream;
pub mod symbols;
