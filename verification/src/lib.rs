//! A minimal symbolic-expression interpreter: text is split into tokens, the
//! tokens are parsed into a tree of expressions, and the tree is evaluated
//! against a mutable environment of named bindings.
//!
//! Numbers are IEEE-754 doubles carried by their bit patterns. The library
//! never computes on them itself: the caller hands in the numeric operations
//! as closures, and every contract is stated relative to what those closures
//! return.

pub mod environment;
pub mod evaluator;
pub mod expression;
pub mod laws;
pub mod numeric;
pub mod parser;
pub mod render;
pub mod repl;
pub mod round_trip;
pub mod token;
