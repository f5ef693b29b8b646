#![allow(dead_code)]

use script_engine::ast::{Expr, Position};
use script_engine::call::{print_text, returned};
use script_engine::engine::{Engine, NativeFunction, OutputSink, TypeIterator};
use script_engine::error::EvalAltResult;
use script_engine::eval::{as_bool_operand, as_guard, as_index, assign_to_variable, thrown_message};
use script_engine::index::IndexSourceType;
use script_engine::loops::{after_body, LoopStep};
use script_engine::scope::{Scope, VariableType};
use script_engine::value::Value;
use std::cell::RefCell;
use std::rc::Rc;

struct NoFn;

impl NativeFunction for NoFn {
    fn call(&self, _args: &mut [Value], pos: Position) -> Result<Value, EvalAltResult> {
        Err(EvalAltResult::ErrorRuntime(String::new(), pos))
    }
}

struct NoItems;

impl TypeIterator for NoItems {
    fn iterate(&self, _value: &Value) -> Vec<Value> {
        Vec::new()
    }
}

#[derive(Clone)]
struct Lines(Rc<RefCell<Vec<String>>>);

impl OutputSink for Lines {
    fn emit(&self, text: &str) {
        self.0.borrow_mut().push(text.to_string());
    }
}

type Plain = Engine<NoFn, NoItems, Lines>;

fn quiet() -> Lines {
    Lines(Rc::new(RefCell::new(Vec::new())))
}

fn p(line: usize, pos: usize) -> Position {
    Position::new(line, pos)
}

fn chars(s: &str) -> Value {
    Value::Str(s.to_string())
}

#[test]
fn operands_guards_and_indices_are_told_apart_by_kind() {
    assert_eq!(as_bool_operand(Value::Bool(true), "AND", p(1, 1)), Ok(true));
    assert_eq!(as_bool_operand(Value::Bool(false), "OR", p(1, 1)), Ok(false));
    assert_eq!(
        as_bool_operand(Value::Int(1), "AND", p(2, 3)),
        Err(EvalAltResult::ErrorBooleanArgMismatch("AND".to_string(), p(2, 3)))
    );
    assert_eq!(
        as_bool_operand(Value::Unit, "OR", p(2, 3)),
        Err(EvalAltResult::ErrorBooleanArgMismatch("OR".to_string(), p(2, 3)))
    );
    assert_eq!(as_guard(Value::Bool(true), p(1, 1)), Ok(true));
    assert_eq!(as_guard(chars("true"), p(4, 5)), Err(EvalAltResult::ErrorIfGuard(p(4, 5))));
    assert_eq!(as_index(Value::Int(-3), p(1, 1)), Ok(-3));
    assert_eq!(as_index(Value::Char('1'), p(6, 7)), Err(EvalAltResult::ErrorIndexExpr(p(6, 7))));
}

#[test]
fn thrown_message_is_the_text_of_a_string_only() {
    assert_eq!(thrown_message(chars("boom")), "boom");
    assert_eq!(thrown_message(Value::Int(5)), "");
    assert_eq!(thrown_message(Value::Array(vec![chars("boom")])), "");
}

#[test]
fn printed_text_is_the_text_of_a_string_only() {
    assert_eq!(print_text(&chars("hi")), "hi");
    assert_eq!(print_text(&chars("")), "");
    assert_eq!(print_text(&Value::Int(5)), "error: not a string");
    assert_eq!(print_text(&Value::Unit), "error: not a string");
}

#[test]
fn return_becomes_the_value_of_the_call() {
    assert_eq!(returned(Ok(Value::Int(1))), Ok(Value::Int(1)));
    assert_eq!(returned(Err(EvalAltResult::Return(Value::Int(2), p(1, 1)))), Ok(Value::Int(2)));
    assert_eq!(
        returned(Err(EvalAltResult::ErrorLoopBreak(p(1, 1)))),
        Err(EvalAltResult::ErrorLoopBreak(p(1, 1)))
    );
    assert_eq!(
        returned(Err(EvalAltResult::ErrorRuntime("x".to_string(), p(1, 1)))),
        Err(EvalAltResult::ErrorRuntime("x".to_string(), p(1, 1)))
    );
}

#[test]
fn loop_goes_on_leaves_or_fails() {
    assert_eq!(after_body(Ok(Value::Int(1))), LoopStep::Again);
    assert_eq!(after_body(Err(EvalAltResult::ErrorLoopBreak(p(1, 1)))), LoopStep::Leave);
    assert_eq!(
        after_body(Err(EvalAltResult::Return(Value::Unit, p(1, 1)))),
        LoopStep::Fail(EvalAltResult::Return(Value::Unit, p(1, 1)))
    );
    assert_eq!(
        after_body(Err(EvalAltResult::ErrorFor(p(2, 2)))),
        LoopStep::Fail(EvalAltResult::ErrorFor(p(2, 2)))
    );
}

#[test]
fn assign_to_variable_writes_or_refuses() {
    let mut scope = Scope::new();
    scope.push("x".to_string(), Value::Int(1));
    scope.push_dynamic("k".to_string(), VariableType::Constant, Value::Int(2));
    assert_eq!(
        assign_to_variable(&mut scope, "x", chars("new"), p(1, 1), p(2, 2)),
        Ok(chars("new"))
    );
    assert_eq!(scope.get("x").unwrap().3, chars("new"));
    assert_eq!(
        assign_to_variable(&mut scope, "k", Value::Int(3), p(1, 1), p(2, 2)),
        Err(EvalAltResult::ErrorAssignmentToConstant("k".to_string(), p(2, 2)))
    );
    assert_eq!(scope.get("k").unwrap().3, Value::Int(2));
    assert_eq!(
        assign_to_variable(&mut scope, "y", Value::Int(3), p(1, 1), p(2, 2)),
        Err(EvalAltResult::ErrorVariableNotFound("y".to_string(), p(1, 1)))
    );
    assert_eq!(scope.len(), 2);
}

#[test]
fn assign_to_element_writes_or_refuses() {
    let mut scope = Scope::new();
    scope.push("a".to_string(), Value::Array(vec![Value::Int(1), Value::Int(2)]));
    scope.push_dynamic("k".to_string(), VariableType::Constant, chars("abc"));
    let in_a = (IndexSourceType::Array, Some(("a", VariableType::Normal, 0)), 1, Value::Int(2));
    assert_eq!(
        Plain::assign_to_element(&mut scope, in_a, Value::Int(9), p(1, 1), p(2, 2)),
        Ok(Value::Unit)
    );
    assert_eq!(scope.get("a").unwrap().3, Value::Array(vec![Value::Int(1), Value::Int(9)]));
    let root = Some(("k", VariableType::Constant, 1));
    let in_k = (IndexSourceType::String, root, 0, Value::Char('a'));
    assert_eq!(
        Plain::assign_to_element(&mut scope, in_k, Value::Char('z'), p(1, 1), p(2, 2)),
        Err(EvalAltResult::ErrorAssignmentToConstant("k".to_string(), p(1, 1)))
    );
    assert_eq!(scope.get("k").unwrap().3, chars("abc"));
    let temporary = (IndexSourceType::Expression, None, 0, Value::Int(1));
    assert_eq!(
        Plain::assign_to_element(&mut scope, temporary, Value::Int(1), p(3, 3), p(2, 2)),
        Err(EvalAltResult::ErrorAssignmentToUnknownLHS(p(3, 3)))
    );
}

#[test]
fn finish_native_call_prints_for_print_and_debug_only() {
    let printed = quiet();
    let debugged = quiet();
    let engine = Plain::new(printed.clone(), debugged.clone());
    assert_eq!(engine.finish_native_call("print", chars("a")), Value::Unit);
    assert_eq!(engine.finish_native_call("debug", chars("b")), Value::Unit);
    assert_eq!(engine.finish_native_call("print", Value::Int(1)), Value::Unit);
    assert_eq!(engine.finish_native_call("other", chars("c")), chars("c"));
    assert_eq!(*printed.0.borrow(), vec!["a".to_string(), "error: not a string".to_string()]);
    assert_eq!(*debugged.0.borrow(), vec!["b".to_string()]);
    engine.print("direct");
    engine.debug("direct");
    assert_eq!(printed.0.borrow().len(), 3);
    assert_eq!(debugged.0.borrow().len(), 2);
}

#[test]
fn left_operand_that_decides_leaves_the_right_one_alone() {
    let engine = Plain::new(quiet(), quiet());
    let mut scope = Scope::new();
    scope.push("seen".to_string(), Value::Int(0));
    // the right operand would change `seen` and then fail on a variable that is not there
    let touch = Expr::Assignment(
        Box::new(Expr::Variable("seen".to_string(), p(1, 1))),
        Box::new(Expr::Variable("nowhere".to_string(), p(3, 3))),
        p(2, 2),
    );
    let mut budget: u64 = 10;
    assert_eq!(
        engine.eval_logic_right(&mut scope, true, Value::Bool(false), p(5, 5), &touch, &mut budget),
        Ok(Value::Bool(false))
    );
    assert_eq!(
        engine.eval_logic_right(&mut scope, false, Value::Bool(true), p(5, 5), &touch, &mut budget),
        Ok(Value::Bool(true))
    );
    assert_eq!(budget, 10);
    assert_eq!(scope.len(), 1);
}

#[test]
fn left_operand_that_does_not_decide_hands_over_to_the_right_one() {
    let engine = Plain::new(quiet(), quiet());
    let mut scope = Scope::new();
    let mut budget: u64 = 10;
    let missing = Expr::Variable("nowhere".to_string(), p(3, 3));
    assert_eq!(
        engine.eval_logic_right(&mut scope, true, Value::Bool(true), p(5, 5), &missing, &mut budget),
        Err(EvalAltResult::ErrorVariableNotFound("nowhere".to_string(), p(3, 3)))
    );
    assert_eq!(
        engine.eval_logic_right(
            &mut scope,
            true,
            Value::Bool(true),
            p(5, 5),
            &Expr::False(p(4, 4)),
            &mut budget
        ),
        Ok(Value::Bool(false))
    );
    assert_eq!(
        engine.eval_logic_right(
            &mut scope,
            false,
            Value::Bool(false),
            p(5, 5),
            &Expr::True(p(4, 4)),
            &mut budget
        ),
        Ok(Value::Bool(true))
    );
    assert_eq!(
        engine.eval_logic_right(
            &mut scope,
            false,
            Value::Bool(false),
            p(5, 5),
            &Expr::IntegerConstant(1, p(4, 4)),
            &mut budget
        ),
        Err(EvalAltResult::ErrorBooleanArgMismatch("OR".to_string(), p(4, 4)))
    );
}

#[test]
fn left_operand_that_is_no_boolean_is_an_error() {
    let engine = Plain::new(quiet(), quiet());
    let mut scope = Scope::new();
    let mut budget: u64 = 10;
    assert_eq!(
        engine.eval_logic_right(
            &mut scope,
            true,
            Value::Int(1),
            p(5, 5),
            &Expr::True(p(4, 4)),
            &mut budget
        ),
        Err(EvalAltResult::ErrorBooleanArgMismatch("AND".to_string(), p(5, 5)))
    );
    assert_eq!(
        engine.eval_logic_right(&mut scope, false, Value::Unit, p(6, 6), &Expr::True(p(4, 4)), &mut budget),
        Err(EvalAltResult::ErrorBooleanArgMismatch("OR".to_string(), p(6, 6)))
    );
}
