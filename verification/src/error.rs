//! What an evaluation ends in when it does not end in a value: an error with the place it
//! arose at, or one of the two signals that unwind to a loop or to a function call.

use crate::ast::Position;
use crate::value::{SpecValue, Value, INT};
use vstd::prelude::*;

verus! {

/// An error of evaluation, or a control-flow signal.
#[derive(Debug, PartialEq)]
pub enum EvalAltResult {
    /// No function of that name takes arguments of those types. Holds the name and the types.
    ErrorFunctionNotFound(String, Position),
    /// A character of a string was assigned something that is no character.
    ErrorCharMismatch(Position),
    /// An array was indexed out of its bounds. Holds the length and the index.
    ErrorArrayBounds(usize, INT, Position),
    /// A string was indexed out of its bounds. Holds the number of characters and the index.
    ErrorStringBounds(usize, INT, Position),
    /// A value that is neither array nor string was indexed. Holds the name of its type.
    ErrorIndexingType(String, Position),
    /// An index is no integer.
    ErrorIndexExpr(Position),
    /// The guard of an `if` or a `while` is no boolean.
    ErrorIfGuard(Position),
    /// The value given to `for` has no iterator.
    ErrorFor(Position),
    /// A name that no binding of the scope has.
    ErrorVariableNotFound(String, Position),
    /// The left side of an assignment is neither a name, an index nor a dot chain.
    ErrorAssignmentToUnknownLHS(Position),
    /// An assignment to a constant, or into one.
    ErrorAssignmentToConstant(String, Position),
    /// An operand of `&&` or `||` is no boolean. Holds the operator.
    ErrorBooleanArgMismatch(String, Position),
    /// A dot chain of a shape that has no meaning, or a property that does not exist.
    ErrorDotExpr(String, Position),
    /// An error that the script threw. Holds its message.
    ErrorRuntime(String, Position),
    /// The budget of operations ran out.
    ErrorTooManyOperations(Position),
    /// The signal of `break`: it unwinds to the nearest loop.
    ErrorLoopBreak(Position),
    /// The signal of `return`: it unwinds to the call of the function, with the value.
    Return(Value, Position),
}

/// The mathematical model of an [`EvalAltResult`].
pub enum SpecError {
    FunctionNotFound(Seq<char>, Position),
    CharMismatch(Position),
    ArrayBounds(nat, int, Position),
    StringBounds(nat, int, Position),
    IndexingType(Seq<char>, Position),
    IndexExpr(Position),
    IfGuard(Position),
    For(Position),
    VariableNotFound(Seq<char>, Position),
    AssignmentToUnknownLHS(Position),
    AssignmentToConstant(Seq<char>, Position),
    BooleanArgMismatch(Seq<char>, Position),
    DotExpr(Seq<char>, Position),
    Runtime(Seq<char>, Position),
    TooManyOperations(Position),
    LoopBreak(Position),
    Return(SpecValue, Position),
}

impl View for EvalAltResult {
    type V = SpecError;

    open spec fn view(&self) -> SpecError {
        match self {
            EvalAltResult::ErrorFunctionNotFound(s, pos) => SpecError::FunctionNotFound(s@, *pos),
            EvalAltResult::ErrorCharMismatch(pos) => SpecError::CharMismatch(*pos),
            EvalAltResult::ErrorArrayBounds(len, index, pos) => SpecError::ArrayBounds(
                *len as nat,
                *index as int,
                *pos,
            ),
            EvalAltResult::ErrorStringBounds(len, index, pos) => SpecError::StringBounds(
                *len as nat,
                *index as int,
                *pos,
            ),
            EvalAltResult::ErrorIndexingType(s, pos) => SpecError::IndexingType(s@, *pos),
            EvalAltResult::ErrorIndexExpr(pos) => SpecError::IndexExpr(*pos),
            EvalAltResult::ErrorIfGuard(pos) => SpecError::IfGuard(*pos),
            EvalAltResult::ErrorFor(pos) => SpecError::For(*pos),
            EvalAltResult::ErrorVariableNotFound(s, pos) => SpecError::VariableNotFound(s@, *pos),
            EvalAltResult::ErrorAssignmentToUnknownLHS(pos) => SpecError::AssignmentToUnknownLHS(
                *pos,
            ),
            EvalAltResult::ErrorAssignmentToConstant(s, pos) => SpecError::AssignmentToConstant(
                s@,
                *pos,
            ),
            EvalAltResult::ErrorBooleanArgMismatch(s, pos) => SpecError::BooleanArgMismatch(
                s@,
                *pos,
            ),
            EvalAltResult::ErrorDotExpr(s, pos) => SpecError::DotExpr(s@, *pos),
            EvalAltResult::ErrorRuntime(s, pos) => SpecError::Runtime(s@, *pos),
            EvalAltResult::ErrorTooManyOperations(pos) => SpecError::TooManyOperations(*pos),
            EvalAltResult::ErrorLoopBreak(pos) => SpecError::LoopBreak(*pos),
            EvalAltResult::Return(value, pos) => SpecError::Return(value@, *pos),
        }
    }
}

/// The model of what an evaluation ended in.
pub open spec fn outcome(r: Result<Value, EvalAltResult>) -> Result<SpecValue, SpecError> {
    match r {
        Ok(value) => Ok(value@),
        Err(error) => Err(error@),
    }
}

} // verus!
