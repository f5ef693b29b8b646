#![allow(dead_code)]
#![allow(unused_imports)]

use script_engine::ast::{Expr, FnDef, Position, ReturnType, Stmt};
use script_engine::engine::{Engine, NativeFunction, OutputSink, TypeIterator};
use script_engine::error::EvalAltResult;
use script_engine::scope::{Scope, VariableType};
use script_engine::value::{TypeId, Value};
use std::cell::RefCell;
use std::rc::Rc;

struct Native(Box<dyn Fn(&mut [Value], Position) -> Result<Value, EvalAltResult>>);

impl NativeFunction for Native {
    fn call(&self, args: &mut [Value], pos: Position) -> Result<Value, EvalAltResult> {
        (self.0)(args, pos)
    }
}

struct Items(Box<dyn Fn(&Value) -> Vec<Value>>);

impl TypeIterator for Items {
    fn iterate(&self, value: &Value) -> Vec<Value> {
        (self.0)(value)
    }
}

#[derive(Clone)]
struct Lines(Rc<RefCell<Vec<String>>>);

impl OutputSink for Lines {
    fn emit(&self, text: &str) {
        self.0.borrow_mut().push(text.to_string());
    }
}

type TestEngine = Engine<Native, Items, Lines>;

fn lines() -> Lines {
    Lines(Rc::new(RefCell::new(Vec::new())))
}

fn native(f: impl Fn(&mut [Value], Position) -> Result<Value, EvalAltResult> + 'static) -> Native {
    Native(Box::new(f))
}

fn int_of(value: &Value) -> i64 {
    match value {
        Value::Int(i) => *i,
        other => panic!("no integer: {:?}", other),
    }
}

/// An engine with integer arithmetic and comparison, as a host would register them.
fn engine_with_arithmetic() -> TestEngine {
    let mut engine = TestEngine::new(lines(), lines());
    let ints = || vec![TypeId::Int, TypeId::Int];
    engine.register_fn("+", ints(), native(|a, _| Ok(Value::Int(int_of(&a[0]) + int_of(&a[1])))));
    engine.register_fn("-", ints(), native(|a, _| Ok(Value::Int(int_of(&a[0]) - int_of(&a[1])))));
    engine.register_fn("*", ints(), native(|a, _| Ok(Value::Int(int_of(&a[0]) * int_of(&a[1])))));
    engine.register_fn(
        "/",
        ints(),
        native(|a, pos| {
            if int_of(&a[1]) == 0 {
                Err(EvalAltResult::ErrorRuntime("division by zero".to_string(), pos))
            } else {
                Ok(Value::Int(int_of(&a[0]) / int_of(&a[1])))
            }
        }),
    );
    engine.register_fn("<", ints(), native(|a, _| Ok(Value::Bool(int_of(&a[0]) < int_of(&a[1])))));
    engine.register_fn("==", ints(), native(|a, _| Ok(Value::Bool(int_of(&a[0]) == int_of(&a[1])))));
    engine
}

fn p(line: usize, pos: usize) -> Position {
    Position::new(line, pos)
}

fn num(i: i64) -> Expr {
    Expr::IntegerConstant(i, p(1, 1))
}

fn text(s: &str) -> Expr {
    Expr::StringConstant(s.to_string(), p(1, 1))
}

fn var(name: &str) -> Expr {
    Expr::Variable(name.to_string(), p(1, 1))
}

fn var_at(name: &str, pos: Position) -> Expr {
    Expr::Variable(name.to_string(), pos)
}

fn call(name: &str, args: Vec<Expr>) -> Expr {
    Expr::FunctionCall(name.to_string(), args, None, p(1, 1))
}

fn call_at(name: &str, args: Vec<Expr>, pos: Position) -> Expr {
    Expr::FunctionCall(name.to_string(), args, None, pos)
}

fn assign(lhs: Expr, rhs: Expr) -> Expr {
    Expr::Assignment(Box::new(lhs), Box::new(rhs), p(1, 9))
}

fn index(lhs: Expr, idx: Expr) -> Expr {
    Expr::Index(Box::new(lhs), Box::new(idx), p(1, 5))
}

fn dot(lhs: Expr, rhs: Expr) -> Expr {
    Expr::Dot(Box::new(lhs), Box::new(rhs), p(1, 3))
}

fn prop(name: &str) -> Expr {
    Expr::Property(name.to_string(), p(1, 4))
}

fn array(items: Vec<Expr>) -> Expr {
    Expr::Array(items, p(1, 1))
}

fn stmt(expr: Expr) -> Stmt {
    Stmt::Expr(Box::new(expr))
}

fn let_(name: &str, init: Expr) -> Stmt {
    Stmt::Let(name.to_string(), Some(Box::new(init)), p(1, 1))
}

fn const_(name: &str, init: Expr) -> Stmt {
    Stmt::Const(name.to_string(), Box::new(init), p(1, 1))
}

fn block(stmts: Vec<Stmt>) -> Stmt {
    Stmt::Block(stmts, p(1, 1))
}

fn if_(guard: Expr, then: Stmt, other: Option<Stmt>) -> Stmt {
    Stmt::IfElse(Box::new(guard), Box::new(then), other.map(Box::new))
}

fn while_(guard: Expr, body: Stmt) -> Stmt {
    Stmt::While(Box::new(guard), Box::new(body))
}

fn loop_(body: Stmt) -> Stmt {
    Stmt::Loop(Box::new(body))
}

fn return_(value: Expr) -> Stmt {
    Stmt::ReturnWithVal(Some(Box::new(value)), ReturnType::Return, p(1, 1))
}

fn function(name: &str, params: &[&str], body: Stmt) -> FnDef {
    FnDef {
        name: name.to_string(),
        params: params.iter().map(|s| s.to_string()).collect(),
        body,
        pos: p(1, 1),
    }
}

fn chars(s: &str) -> Value {
    Value::Str(s.to_string())
}

#[test]
fn adds_two_variables() {
    // let a = 40; let b = 2; a + b
    let engine = engine_with_arithmetic();
    let mut scope = Scope::new();
    let ast = block(vec![
        let_("a", num(40)),
        let_("b", num(2)),
        stmt(call("+", vec![var("a"), var("b")])),
    ]);
    assert_eq!(engine.eval(&mut scope, &ast), Ok(Value::Int(42)));
    assert_eq!(scope.len(), 0);
}

#[test]
fn replaces_a_character_of_a_string() {
    // let s = "hello"; s[1] = 'a'; s
    let engine = engine_with_arithmetic();
    let mut scope = Scope::new();
    let ast = block(vec![
        let_("s", text("hello")),
        stmt(assign(index(var("s"), num(1)), Expr::CharConstant('a', p(1, 1)))),
        stmt(var("s")),
    ]);
    assert_eq!(engine.eval(&mut scope, &ast), Ok(chars("hallo")));
}

#[test]
fn array_index_out_of_bounds() {
    // let a = [1,2,3]; a[5]
    let engine = engine_with_arithmetic();
    let mut scope = Scope::new();
    let five = Expr::IntegerConstant(5, p(2, 3));
    let ast = block(vec![
        let_("a", array(vec![num(1), num(2), num(3)])),
        stmt(index(var("a"), five)),
    ]);
    assert_eq!(engine.eval(&mut scope, &ast), Err(EvalAltResult::ErrorArrayBounds(3, 5, p(2, 3))));
}

#[test]
fn assignment_to_constant_is_refused() {
    // const k = 7; k = 8
    let engine = engine_with_arithmetic();
    let mut scope = Scope::new();
    let ast = block(vec![const_("k", num(7)), stmt(assign(var("k"), num(8)))]);
    assert_eq!(
        engine.eval(&mut scope, &ast),
        Err(EvalAltResult::ErrorAssignmentToConstant("k".to_string(), p(1, 9)))
    );
}

#[test]
fn constant_keeps_its_value_after_refused_assignment() {
    let engine = engine_with_arithmetic();
    let mut scope = Scope::new();
    assert_eq!(engine.eval(&mut scope, &const_("k", num(7))), Ok(Value::Unit));
    assert!(engine.eval(&mut scope, &stmt(assign(var("k"), num(8)))).is_err());
    assert_eq!(engine.eval(&mut scope, &stmt(var("k"))), Ok(Value::Int(7)));
}

#[test]
fn script_function_returns_and_is_overridden() {
    // fn f(x) { return x + 1; } f(41), then fn f(x) { 0 } f(41)
    let mut engine = engine_with_arithmetic();
    engine.load_script_function(function(
        "f",
        &["x"],
        block(vec![return_(call("+", vec![var("x"), num(1)]))]),
    ));
    let mut scope = Scope::new();
    let ast = stmt(call("f", vec![num(41)]));
    assert_eq!(engine.eval(&mut scope, &ast), Ok(Value::Int(42)));
    engine.load_script_function(function("f", &["x"], block(vec![stmt(num(0))])));
    assert_eq!(engine.eval(&mut scope, &ast), Ok(Value::Int(0)));
}

#[test]
fn script_function_overrides_native_function() {
    let mut engine = engine_with_arithmetic();
    let mut scope = Scope::new();
    let ast = stmt(call("+", vec![num(1), num(2)]));
    assert_eq!(engine.eval(&mut scope, &ast), Ok(Value::Int(3)));
    engine.load_script_function(function("+", &["a", "b"], block(vec![stmt(num(100))])));
    assert_eq!(engine.eval(&mut scope, &ast), Ok(Value::Int(100)));
    engine.clear_functions();
    assert_eq!(engine.eval(&mut scope, &ast), Ok(Value::Int(3)));
}

#[test]
fn while_loop_counts_to_three() {
    // let i = 0; while i < 3 { i = i + 1; } i
    let engine = engine_with_arithmetic();
    let mut scope = Scope::new();
    let ast = block(vec![
        let_("i", num(0)),
        while_(
            call("<", vec![var("i"), num(3)]),
            block(vec![stmt(assign(var("i"), call("+", vec![var("i"), num(1)])))]),
        ),
        stmt(var("i")),
    ]);
    assert_eq!(engine.eval(&mut scope, &ast), Ok(Value::Int(3)));
}

#[test]
fn loop_breaks_at_two() {
    // let i = 0; loop { if i == 2 { break; } i = i + 1; } i
    let engine = engine_with_arithmetic();
    let mut scope = Scope::new();
    let ast = block(vec![
        let_("i", num(0)),
        loop_(block(vec![
            if_(call("==", vec![var("i"), num(2)]), block(vec![Stmt::Break(p(1, 1))]), None),
            stmt(assign(var("i"), call("+", vec![var("i"), num(1)]))),
        ])),
        stmt(var("i")),
    ]);
    assert_eq!(engine.eval(&mut scope, &ast), Ok(Value::Int(2)));
}

fn division_guard(left: Expr) -> Stmt {
    // if <left> && (1/0 == 0) { 1 } else { 2 }
    let division = call_at("/", vec![num(1), num(0)], p(7, 7));
    let right = call("==", vec![division, num(0)]);
    if_(
        Expr::And(Box::new(left), Box::new(right)),
        block(vec![stmt(num(1))]),
        Some(block(vec![stmt(num(2))])),
    )
}

#[test]
fn and_evaluates_right_side_when_left_is_true() {
    let engine = engine_with_arithmetic();
    let mut scope = Scope::new();
    assert_eq!(
        engine.eval(&mut scope, &division_guard(Expr::True(p(1, 1)))),
        Err(EvalAltResult::ErrorRuntime("division by zero".to_string(), p(7, 7)))
    );
}

#[test]
fn and_skips_right_side_when_left_is_false() {
    let engine = engine_with_arithmetic();
    let mut scope = Scope::new();
    assert_eq!(engine.eval(&mut scope, &division_guard(Expr::False(p(1, 1)))), Ok(Value::Int(2)));
}

#[test]
fn or_skips_right_side_when_left_is_true() {
    let engine = engine_with_arithmetic();
    let mut scope = Scope::new();
    let division = call("/", vec![num(1), num(0)]);
    let ast = stmt(Expr::Or(
        Box::new(Expr::True(p(1, 1))),
        Box::new(call("==", vec![division, num(0)])),
    ));
    assert_eq!(engine.eval(&mut scope, &ast), Ok(Value::Bool(true)));
}

#[test]
fn unmatched_break_passes_the_block() {
    let engine = engine_with_arithmetic();
    let mut scope = Scope::new();
    let ast = block(vec![let_("x", num(1)), Stmt::Break(p(3, 4))]);
    assert_eq!(engine.eval(&mut scope, &ast), Err(EvalAltResult::ErrorLoopBreak(p(3, 4))));
    assert_eq!(scope.len(), 0);
}

#[test]
fn break_in_while_gives_unit() {
    let engine = engine_with_arithmetic();
    let mut scope = Scope::new();
    let ast = while_(Expr::True(p(1, 1)), block(vec![Stmt::Break(p(1, 1))]));
    assert_eq!(engine.eval(&mut scope, &ast), Ok(Value::Unit));
}

#[test]
fn break_in_for_gives_unit() {
    let mut engine = engine_with_arithmetic();
    engine.register_iterator(
        TypeId::Array,
        Items(Box::new(|v| match v {
            Value::Array(items) => items.clone(),
            _ => Vec::new(),
        })),
    );
    let mut scope = Scope::new();
    let ast = Stmt::For(
        "x".to_string(),
        Box::new(array(vec![num(1), num(2)])),
        Box::new(block(vec![Stmt::Break(p(1, 1))])),
    );
    assert_eq!(engine.eval(&mut scope, &ast), Ok(Value::Unit));
    assert_eq!(scope.len(), 0);
}

#[test]
fn let_is_seen_in_same_and_inner_scope_and_gone_outside() {
    let engine = engine_with_arithmetic();
    let mut scope = Scope::new();
    let same = block(vec![let_("x", num(5)), stmt(var("x"))]);
    assert_eq!(engine.eval(&mut scope, &same), Ok(Value::Int(5)));
    let inner = block(vec![let_("x", num(5)), block(vec![stmt(var("x"))])]);
    assert_eq!(engine.eval(&mut scope, &inner), Ok(Value::Int(5)));
    let outside = block(vec![block(vec![let_("x", num(5))]), stmt(var_at("x", p(9, 9)))]);
    assert_eq!(
        engine.eval(&mut scope, &outside),
        Err(EvalAltResult::ErrorVariableNotFound("x".to_string(), p(9, 9)))
    );
}

#[test]
fn block_restores_scope_length_on_success_and_on_failure() {
    let engine = engine_with_arithmetic();
    let mut scope = Scope::new();
    scope.push("outer".to_string(), Value::Int(1));
    let good = block(vec![let_("a", num(1)), let_("b", num(2))]);
    assert_eq!(engine.eval(&mut scope, &good), Ok(Value::Unit));
    assert_eq!(scope.len(), 1);
    let bad = block(vec![let_("a", num(1)), stmt(var("missing"))]);
    assert!(engine.eval(&mut scope, &bad).is_err());
    assert_eq!(scope.len(), 1);
}

#[test]
fn assigning_an_array_element_to_itself_changes_nothing() {
    let engine = engine_with_arithmetic();
    let mut scope = Scope::new();
    let ast = block(vec![
        let_("a", array(vec![num(1), num(2), num(3)])),
        stmt(assign(index(var("a"), num(1)), index(var("a"), num(1)))),
        stmt(var("a")),
    ]);
    assert_eq!(
        engine.eval(&mut scope, &ast),
        Ok(Value::Array(vec![Value::Int(1), Value::Int(2), Value::Int(3)]))
    );
}

#[test]
fn assigning_a_string_character_to_itself_changes_nothing() {
    let engine = engine_with_arithmetic();
    let mut scope = Scope::new();
    let ast = block(vec![
        let_("s", text("h\u{e9}llo")),
        stmt(assign(index(var("s"), num(1)), index(var("s"), num(1)))),
        stmt(var("s")),
    ]);
    assert_eq!(engine.eval(&mut scope, &ast), Ok(chars("h\u{e9}llo")));
}

#[test]
fn type_of_gives_pretty_or_raw_name() {
    let mut engine = engine_with_arithmetic();
    let mut scope = Scope::new();
    let of = |e: Expr| stmt(call("type_of", vec![e]));
    assert_eq!(engine.eval(&mut scope, &of(text("x"))), Ok(chars("string")));
    assert_eq!(engine.eval(&mut scope, &of(array(vec![]))), Ok(chars("array")));
    assert_eq!(engine.eval(&mut scope, &of(num(1))), Ok(chars("i64")));
    assert_eq!(engine.eval(&mut scope, &of(num(1))), Ok(chars("i64")));
    engine.register_type_name("i64", "integer");
    assert_eq!(engine.eval(&mut scope, &of(num(1))), Ok(chars("integer")));
}
