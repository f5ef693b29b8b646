//! Loops: `while`, `loop` and `for`. Each iteration costs one operation of the budget, and
//! a `break` in the body ends the loop with unit.

use crate::ast::{lemma_size_positive, Expr, Stmt};
use crate::engine::{Engine, NativeFunction, OutputSink, TypeIterator};
use crate::error::{outcome, EvalAltResult, SpecError};
use crate::eval::{agrees, as_guard, kept};
use crate::scope::{extends, Scope, SpecBinding, VariableType};
use crate::value::{views, SpecValue, Value};
use vstd::pervasive::unreached;
use vstd::prelude::*;

verus! {

broadcast use crate::value::group_views;

/// What a loop does after one run of its body.
#[derive(Debug, PartialEq)]
pub enum LoopStep {
    /// Run the body again.
    Again,
    /// Leave the loop with unit.
    Leave,
    /// Leave the loop with this error.
    Fail(EvalAltResult),
}

/// Decides what a loop does after its body ended in `result`: a value lets it go on, a
/// `break` ends it, and every other error leaves with that error.
pub fn after_body(result: Result<Value, EvalAltResult>) -> (r: LoopStep)
    ensures
        match outcome(result) {
            Ok(_) => r == LoopStep::Again,
            Err(SpecError::LoopBreak(_)) => r == LoopStep::Leave,
            Err(error) => r matches LoopStep::Fail(e) && e@ == error,
        },
{
    match result {
        Ok(_) => LoopStep::Again,
        Err(EvalAltResult::ErrorLoopBreak(_)) => LoopStep::Leave,
        Err(error) => LoopStep::Fail(error),
    }
}

impl<F: NativeFunction, I: TypeIterator, S: OutputSink> Engine<F, I, S> {
    /// Evaluates `while guard { body }`.
    #[verifier::loop_isolation(false)]
    pub fn eval_while(&self, scope: &mut Scope, guard: &Expr, body: &Stmt, budget: &mut u64) -> (r:
        Result<Value, EvalAltResult>)
        requires
            self.well_formed(),
            guard.evaluable(),
            body.evaluable(),
        ensures
            kept(old(scope)@, final(scope)@, *old(budget), *final(budget)),
            guard.scoped() && body.scoped() ==> final(scope)@.len() == old(scope)@.len(),
            r matches Ok(value) ==> value@ == SpecValue::Unit,
            agrees(
                self.meaning_while(guard, body, old(scope)@, *old(budget) as nat),
                r,
                final(scope)@,
                *final(budget),
            ),
        decreases *old(budget), 1 + guard.size() + body.size(), 0nat,
    {
        let ghost whole = self.meaning_while(guard, body, scope@, *budget as nat);
        loop
            invariant
                kept(old(scope)@, scope@, *old(budget), *budget),
                guard.scoped() && body.scoped() ==> scope@.len() == old(scope)@.len(),
                whole is Some ==> whole == self.meaning_while(guard, body, scope@, *budget as nat),
            decreases *budget,
        {
            if *budget == 0 {
                return Err(EvalAltResult::ErrorTooManyOperations(guard.position()));
            }
            *budget = *budget - 1;
            let value = self.eval_expr(scope, guard, budget)?;
            if !as_guard(value, guard.position())? {
                return Ok(Value::Unit);
            }
            match after_body(self.eval_stmt(scope, body, budget)) {
                LoopStep::Again => {},
                LoopStep::Leave => {
                    return Ok(Value::Unit);
                },
                LoopStep::Fail(error) => {
                    return Err(error);
                },
            }
        }
    }

    /// Evaluates `loop { body }`.
    #[verifier::loop_isolation(false)]
    pub fn eval_loop(&self, scope: &mut Scope, body: &Stmt, budget: &mut u64) -> (r: Result<
        Value,
        EvalAltResult,
    >)
        requires
            self.well_formed(),
            body.evaluable(),
        ensures
            kept(old(scope)@, final(scope)@, *old(budget), *final(budget)),
            body.scoped() ==> final(scope)@.len() == old(scope)@.len(),
            r matches Ok(value) ==> value@ == SpecValue::Unit,
            !(outcome(r) matches Err(SpecError::LoopBreak(_))),
            agrees(
                self.meaning_loop(body, old(scope)@, *old(budget) as nat),
                r,
                final(scope)@,
                *final(budget),
            ),
        decreases *old(budget), 1 + body.size(), 0nat,
    {
        let ghost whole = self.meaning_loop(body, scope@, *budget as nat);
        loop
            invariant
                kept(old(scope)@, scope@, *old(budget), *budget),
                body.scoped() ==> scope@.len() == old(scope)@.len(),
                whole is Some ==> whole == self.meaning_loop(body, scope@, *budget as nat),
            decreases *budget,
        {
            if *budget == 0 {
                return Err(EvalAltResult::ErrorTooManyOperations(body.position()));
            }
            *budget = *budget - 1;
            match after_body(self.eval_stmt(scope, body, budget)) {
                LoopStep::Again => {},
                LoopStep::Leave => {
                    return Ok(Value::Unit);
                },
                LoopStep::Fail(error) => {
                    return Err(error);
                },
            }
        }
    }

    /// Runs a `for` loop over the items that its iterator gave: the loop variable is bound
    /// for the time of the loop, holds each item in turn, and is taken off the scope on
    /// every way out. Each iteration costs one operation.
    #[verifier::loop_isolation(false)]
    pub fn run_for(
        &self,
        scope: &mut Scope,
        name: &str,
        items: &Vec<Value>,
        body: &Stmt,
        budget: &mut u64,
    ) -> (r: Result<Value, EvalAltResult>)
        requires
            self.well_formed(),
            body.evaluable(),
        ensures
            kept(old(scope)@, final(scope)@, *old(budget), *final(budget)),
            body.scoped() ==> final(scope)@.len() == old(scope)@.len(),
            r matches Ok(value) ==> value@ == SpecValue::Unit,
            !(outcome(r) matches Err(SpecError::LoopBreak(_))),
            agrees(
                self.meaning_for_items(
                    views(items@),
                    0,
                    old(scope)@.len() as int,
                    body,
                    old(scope)@.push(
                        SpecBinding {
                            name: name@,
                            kind: VariableType::Normal,
                            value: SpecValue::Unit,
                        },
                    ),
                    *old(budget) as nat,
                ),
                r,
                final(scope)@,
                *final(budget),
            ),
        decreases *old(budget), 1 + body.size(), 0nat,
    {
        let ghost entered = scope@;
        let ghost bound = entered.push(
            SpecBinding { name: name@, kind: VariableType::Normal, value: SpecValue::Unit },
        );
        scope.push(name.to_string(), Value::Unit);
        let idx = scope.len() - 1;
        let ghost whole = self.meaning_for_items(
            views(items@),
            0,
            idx as int,
            body,
            bound,
            *budget as nat,
        );
        let mut i: usize = 0;
        while i < items.len()
            invariant
                i <= items.len(),
                idx == entered.len(),
                *budget <= *old(budget),
                extends(bound, scope@),
                body.scoped() ==> scope@.len() == entered.len() + 1,
                whole is Some ==> whole == self.meaning_for_items(
                    views(items@),
                    i as int,
                    idx as int,
                    body,
                    scope@,
                    *budget as nat,
                ),
            decreases items.len() - i,
        {
            if *budget == 0 {
                scope.pop();
                return Err(EvalAltResult::ErrorTooManyOperations(body.position()));
            }
            *budget = *budget - 1;
            let slot = scope.get_mut(name, idx);
            *slot = items[i].clone();
            match after_body(self.eval_stmt(scope, body, budget)) {
                LoopStep::Again => {},
                LoopStep::Leave => {
                    scope.pop();
                    return Ok(Value::Unit);
                },
                LoopStep::Fail(error) => {
                    scope.pop();
                    return Err(error);
                },
            }
            i = i + 1;
        }
        scope.pop();
        Ok(Value::Unit)
    }

    /// Evaluates `for name in expr { body }`: the value of `expr` is handed to the iterator
    /// of its type, and the loop runs over the items that the iterator gives.
    pub fn eval_for(&self, scope: &mut Scope, stmt: &Stmt, budget: &mut u64) -> (r: Result<
        Value,
        EvalAltResult,
    >)
        requires
            self.well_formed(),
            stmt.evaluable(),
            stmt is For,
        ensures
            kept(old(scope)@, final(scope)@, *old(budget), *final(budget)),
            stmt.scoped() ==> final(scope)@.len() == old(scope)@.len(),
            r matches Ok(value) ==> value@ == SpecValue::Unit,
            agrees(
                self.meaning_for(stmt, old(scope)@, *old(budget) as nat),
                r,
                final(scope)@,
                *final(budget),
            ),
        decreases *old(budget), stmt.size(), 0nat,
    {
        match stmt {
            Stmt::For(name, expr, body) => {
                proof {
                    lemma_size_positive(expr);
                }
                let arr = self.eval_expr(scope, expr, budget)?;
                match self.iterate(&arr) {
                    Some(items) => self.run_for(scope, name.as_str(), &items, body, budget),
                    None => Err(EvalAltResult::ErrorFor(expr.position())),
                }
            },
            _ => unreached(),
        }
    }
}

} // verus!
