//! An interpreter and simulation driver for a small language describing
//! agent-based evolutionary simulations: a lexer, a recursive-descent parser,
//! a static validator, a tree-walking evaluator over a dynamic value model,
//! and a generational evolution engine with selection, crossover and mutation.
//!
//! Agent stores and lists live in a per-world arena (`Heap`); shared-mutable
//! references of the language are indices into that arena, so that every
//! mutation, clone and teardown is plain verified code.

pub mod ast;
pub mod deepcopy;
pub mod eval;
pub mod evolution;
pub mod heap;
pub mod laws;
pub mod lexer;
pub mod math;
pub mod parser;
pub mod rng;
pub mod semantic;
pub mod strings;
pub mod value;
pub mod world;
