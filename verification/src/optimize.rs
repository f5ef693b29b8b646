//! How much a syntax tree is to be simplified after it has been compiled.

use vstd::prelude::*;

verus! {

/// The level of optimization that the engine asks of a compiler.
#[derive(Clone, Copy, Debug, PartialEq, Eq, Hash, Structural)]
pub enum OptimizationLevel {
    /// No optimization.
    Off,
    /// Only what cannot change what a script does.
    Simple,
    /// Everything, calls of functions with constant arguments included.
    Full,
}

} // verus!
