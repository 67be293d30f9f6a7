//! Core of a small dynamically-typed scripting language: the runtime value
//! model, the lexical scope chain, and a tree-walking evaluator with
//! function, struct and namespace dispatch.
//!
//! Numbers are IEEE-754 double-precision values carried as their 64-bit
//! representation; the arithmetic itself is delegated to a software
//! implementation of IEEE-754 in an outside crate.

pub mod num;
pub mod tree;
pub mod object;
pub mod ops;
pub mod scope;
pub mod interpreter;
pub mod lexer;
pub mod laws;
