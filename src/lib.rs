//! Middle and back end of a small expression language: a type checker that
//! annotates the syntax tree, and a lowering of typed functions into the
//! instructions of an SSA code-generation backend, each with an exact
//! mathematical model that the code is proved to follow.
use vstd::prelude::*;

pub mod ast;
pub mod builtins;
pub mod checker;
pub mod codegen;
pub mod ir;
pub mod laws;
pub mod sealing;
pub mod statement;
pub mod tokens;
pub mod typed;
pub mod wellformed;

verus! {

} // verus!
