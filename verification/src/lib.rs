//! A small interpreter for the restricted Scheme dialect in which J-Bob proofs
//! are written: values, interned symbols, lexical environments, syntax trees
//! and their evaluation, each with a mathematical model and a contract.

pub mod ast;
pub mod context;
pub mod environment;
pub mod errors;
pub mod eval;
pub mod functions;
pub mod read;
pub mod text;
pub mod types;
