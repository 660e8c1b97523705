//! Front end for a small statically typed imperative language: a
//! recursive-descent parser producing a positioned syntax tree, a scoped
//! symbol table, a semantic analyzer enforcing scope and type rules, and a
//! three-address IR generator with SSA-style variable versioning.

pub mod arkparser;
pub mod ast;
pub mod errors;
pub mod ir_generation;
pub mod semantic_analyzer;
pub mod symbol_table;
pub mod tokens;

pub use errors::ErrorType;
