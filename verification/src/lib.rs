//! A small Lisp core: a reader that turns text into symbolic expressions, a
//! lexically scoped environment, an evaluator with a fixed set of built-in
//! forms, and a printer. Every function is verified against a mathematical
//! model of expressions and scopes.

pub mod model;
pub mod text;
pub mod types;
pub mod equality;
pub mod printer;
pub mod env;
pub mod grammar;
pub mod reader;
pub mod semantics;
pub mod arith;
pub mod util;
pub mod lists;
pub mod builtin;
pub mod evaluator;
pub mod laws;
pub mod unread;
