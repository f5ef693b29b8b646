//! The evaluation core of an embeddable, dynamically typed scripting language.
//!
//! A host hands the engine a syntax tree and a scope of variables; the engine walks the
//! tree and gives back a dynamically typed value or a structured error. The host brings
//! its functions, iterators and output sinks as values of its own types; scripts bring
//! functions of their own, which are found before those of the host.
//!
//! - [`value`]: dynamic values and the identity of their types
//! - [`scope`]: the stack of variables, looked up from the newest binding back
//! - [`ast`]: expressions, statements and script functions
//! - [`error`]: errors, and the signals of `break` and `return`
//! - [`engine`]: the engine, its tables, and the rule by which a call finds its function
//! - [`registry`]: the keys of functions and the sorted table of script functions
//! - [`index`]: reading and replacing elements of arrays and characters of strings
//! - [`eval`], [`call`], [`chain`], [`loops`]: the evaluator
//! - [`meaning`]: what a program means, as far as the host says what its functions do
//! - [`laws`]: what holds of every program
//! - [`text`]: the order of names, prefixes, decimal rendering
//! - [`optimize`]: the levels of optimization

pub mod ast;
pub mod call;
pub mod chain;
pub mod engine;
pub mod error;
pub mod eval;
pub mod index;
pub mod laws;
pub mod loops;
pub mod meaning;
pub mod optimize;
pub mod registry;
pub mod scope;
pub mod text;
pub mod value;

pub use crate::ast::{Expr, FnDef, Position, ReturnType, Stmt};
pub use crate::engine::{Engine, NativeFunction, OutputSink, TypeIterator};
pub use crate::error::EvalAltResult;
pub use crate::optimize::OptimizationLevel;
pub use crate::registry::FnSpec;
pub use crate::scope::{Scope, VariableType};
pub use crate::value::{TypeId, Value, INT};
