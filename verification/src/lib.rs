//! An evaluator for a small, side-effect-free expression language: literals,
//! arithmetic, comparison and logic, `let` bindings, ternary selection, lists,
//! dictionaries, member access and a closed set of built-in methods.
//!
//! Text is turned into an [`model::Expression`] by [`parser::parse`] and reduced
//! to a value or an error by [`interpreter::EvalContext::evaluate`].
//!
//! Floating-point values are carried as IEEE-754 binary64 bit patterns. The
//! library orders, compares and negates them itself; it performs no
//! floating-point arithmetic. An evaluation that needs such a result stops and
//! names the operation, and is run again once the caller has supplied the
//! answer.
pub mod dict;
pub mod float;
pub mod grammar;
pub mod interpreter;
pub mod methods;
pub mod model;
pub mod operators;
pub mod ordering;
pub mod parser;
pub mod trace;

pub use crate::trace::{explore, EvaluatedAst};
