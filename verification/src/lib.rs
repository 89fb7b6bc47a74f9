//! A small-step operational-semantics evaluator.
//!
//! An expression tree built from numbers, booleans, string literals,
//! variables, arithmetic, comparison and assignment nodes is rewritten one
//! redex at a time until it becomes irreducible.  A machine drives the
//! rewriting, threading a name-to-value environment through the rules and
//! committing the environment when an assignment completes.

pub mod display;
pub mod environment;
pub mod expression;
pub mod laws;
pub mod machine;
pub mod step;
