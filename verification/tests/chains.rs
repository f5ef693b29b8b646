#![allow(dead_code)]
#![allow(unused_imports)]

use script_engine::ast::{Expr, FnDef, Position, ReturnType, Stmt};
use script_engine::engine::{Engine, NativeFunction, OutputSink, TypeIterator};
use script_engine::error::EvalAltResult;
use script_engine::index::IndexSourceType;
use script_engine::scope::{Scope, VariableType};
use script_engine::value::{TypeId, Value};
use std::cell::RefCell;
use std::rc::Rc;

struct Native(Box<dyn Fn(&mut [Value], Position) -> Result<Value, EvalAltResult>>);

impl NativeFunction for Native {
    fn call(&self, args: &mut [Value], pos: Position) -> Result<Value, EvalAltResult> {
        (self.0)(args, pos)
    }
}

struct Items(Box<dyn Fn(&Value) -> Vec<Value>>);

impl TypeIterator for Items {
    fn iterate(&self, value: &Value) -> Vec<Value> {
        (self.0)(value)
    }
}

#[derive(Clone)]
struct Lines(Rc<RefCell<Vec<String>>>);

impl OutputSink for Lines {
    fn emit(&self, text: &str) {
        self.0.borrow_mut().push(text.to_string());
    }
}

type TestEngine = Engine<Native, Items, Lines>;

fn lines() -> Lines {
    Lines(Rc::new(RefCell::new(Vec::new())))
}

fn native(f: impl Fn(&mut [Value], Position) -> Result<Value, EvalAltResult> + 'static) -> Native {
    Native(Box::new(f))
}

fn int_of(value: &Value) -> i64 {
    match value {
        Value::Int(i) => *i,
        other => panic!("no integer: {:?}", other),
    }
}

/// An engine with integer arithmetic and comparison, as a host would register them.
fn engine_with_arithmetic() -> TestEngine {
    let mut engine = TestEngine::new(lines(), lines());
    let ints = || vec![TypeId::Int, TypeId::Int];
    engine.register_fn("+", ints(), native(|a, _| Ok(Value::Int(int_of(&a[0]) + int_of(&a[1])))));
    engine.register_fn("-", ints(), native(|a, _| Ok(Value::Int(int_of(&a[0]) - int_of(&a[1])))));
    engine.register_fn("*", ints(), native(|a, _| Ok(Value::Int(int_of(&a[0]) * int_of(&a[1])))));
    engine.register_fn(
        "/",
        ints(),
        native(|a, pos| {
            if int_of(&a[1]) == 0 {
                Err(EvalAltResult::ErrorRuntime("division by zero".to_string(), pos))
            } else {
                Ok(Value::Int(int_of(&a[0]) / int_of(&a[1])))
            }
        }),
    );
    engine.register_fn("<", ints(), native(|a, _| Ok(Value::Bool(int_of(&a[0]) < int_of(&a[1])))));
    engine.register_fn("==", ints(), native(|a, _| Ok(Value::Bool(int_of(&a[0]) == int_of(&a[1])))));
    engine
}

fn p(line: usize, pos: usize) -> Position {
    Position::new(line, pos)
}

fn num(i: i64) -> Expr {
    Expr::IntegerConstant(i, p(1, 1))
}

fn text(s: &str) -> Expr {
    Expr::StringConstant(s.to_string(), p(1, 1))
}

fn var(name: &str) -> Expr {
    Expr::Variable(name.to_string(), p(1, 1))
}

fn var_at(name: &str, pos: Position) -> Expr {
    Expr::Variable(name.to_string(), pos)
}

fn call(name: &str, args: Vec<Expr>) -> Expr {
    Expr::FunctionCall(name.to_string(), args, None, p(1, 1))
}

fn call_at(name: &str, args: Vec<Expr>, pos: Position) -> Expr {
    Expr::FunctionCall(name.to_string(), args, None, pos)
}

fn assign(lhs: Expr, rhs: Expr) -> Expr {
    Expr::Assignment(Box::new(lhs), Box::new(rhs), p(1, 9))
}

fn index(lhs: Expr, idx: Expr) -> Expr {
    Expr::Index(Box::new(lhs), Box::new(idx), p(1, 5))
}

fn dot(lhs: Expr, rhs: Expr) -> Expr {
    Expr::Dot(Box::new(lhs), Box::new(rhs), p(1, 3))
}

fn prop(name: &str) -> Expr {
    Expr::Property(name.to_string(), p(1, 4))
}

fn array(items: Vec<Expr>) -> Expr {
    Expr::Array(items, p(1, 1))
}

fn stmt(expr: Expr) -> Stmt {
    Stmt::Expr(Box::new(expr))
}

fn let_(name: &str, init: Expr) -> Stmt {
    Stmt::Let(name.to_string(), Some(Box::new(init)), p(1, 1))
}

fn const_(name: &str, init: Expr) -> Stmt {
    Stmt::Const(name.to_string(), Box::new(init), p(1, 1))
}

fn block(stmts: Vec<Stmt>) -> Stmt {
    Stmt::Block(stmts, p(1, 1))
}

fn if_(guard: Expr, then: Stmt, other: Option<Stmt>) -> Stmt {
    Stmt::IfElse(Box::new(guard), Box::new(then), other.map(Box::new))
}

fn while_(guard: Expr, body: Stmt) -> Stmt {
    Stmt::While(Box::new(guard), Box::new(body))
}

fn loop_(body: Stmt) -> Stmt {
    Stmt::Loop(Box::new(body))
}

fn return_(value: Expr) -> Stmt {
    Stmt::ReturnWithVal(Some(Box::new(value)), ReturnType::Return, p(1, 1))
}

fn function(name: &str, params: &[&str], body: Stmt) -> FnDef {
    FnDef {
        name: name.to_string(),
        params: params.iter().map(|s| s.to_string()).collect(),
        body,
        pos: p(1, 1),
    }
}

fn chars(s: &str) -> Value {
    Value::Str(s.to_string())
}

const POINT: u64 = 1;

fn point(x: i64, y: i64) -> Value {
    Value::Custom(POINT, "Point".to_string(), vec![Value::Int(x), Value::Int(y)])
}

fn field(value: &Value, i: usize) -> Value {
    match value {
        Value::Custom(_, _, fields) => fields[i].clone(),
        other => panic!("no object: {:?}", other),
    }
}

fn set_field(value: &mut Value, i: usize, new: Value) {
    match value {
        Value::Custom(_, _, fields) => fields[i] = new,
        other => panic!("no object: {:?}", other),
    }
}

/// An engine whose host has a type `Point` with the properties `x` and `y`, a property
/// `items` that holds an array, a method `shift`, and a function `origin`.
fn engine_with_points() -> TestEngine {
    let mut engine = engine_with_arithmetic();
    let obj = TypeId::Custom(POINT);
    engine.register_fn("get$x", vec![obj], native(|a, _| Ok(field(&a[0], 0))));
    engine.register_fn("get$y", vec![obj], native(|a, _| Ok(field(&a[0], 1))));
    engine.register_fn(
        "set$x",
        vec![obj, TypeId::Int],
        native(|a, _| {
            let v = a[1].clone();
            set_field(&mut a[0], 0, v);
            Ok(Value::Unit)
        }),
    );
    engine.register_fn(
        "set$y",
        vec![obj, TypeId::Custom(POINT)],
        native(|a, _| {
            let v = a[1].clone();
            set_field(&mut a[0], 1, v);
            Ok(Value::Unit)
        }),
    );
    engine.register_fn(
        "set$y",
        vec![obj, TypeId::Array],
        native(|a, _| {
            let v = a[1].clone();
            set_field(&mut a[0], 1, v);
            Ok(Value::Unit)
        }),
    );
    engine.register_fn(
        "shift",
        vec![obj, TypeId::Int],
        native(|a, _| {
            let moved = int_of(&field(&a[0], 0)) + int_of(&a[1]);
            set_field(&mut a[0], 0, Value::Int(moved));
            Ok(Value::Int(moved))
        }),
    );
    engine.register_fn("origin", vec![], native(|_, _| Ok(point(0, 0))));
    engine.register_type_name("Point", "point");
    engine
}

fn scope_with(name: &str, value: Value) -> Scope {
    let mut scope = Scope::new();
    scope.push(name.to_string(), value);
    scope
}

fn value_of(scope: &Scope, name: &str) -> Value {
    scope.get(name).expect("variable").3
}

#[test]
fn reads_a_property_through_its_getter() {
    let engine = engine_with_points();
    let mut scope = scope_with("p", point(3, 4));
    let ast = stmt(dot(var("p"), prop("x")));
    assert_eq!(engine.eval(&mut scope, &ast), Ok(Value::Int(3)));
    assert_eq!(value_of(&scope, "p"), point(3, 4));
}

#[test]
fn writes_a_property_through_its_setter() {
    let engine = engine_with_points();
    let mut scope = scope_with("p", point(3, 4));
    let ast = stmt(assign(dot(var("p"), prop("x")), num(10)));
    assert_eq!(engine.eval(&mut scope, &ast), Ok(Value::Unit));
    assert_eq!(value_of(&scope, "p"), point(10, 4));
}

#[test]
fn getter_after_setter_gives_the_value_set() {
    let engine = engine_with_points();
    for v in [-5i64, 0, 7, 1 << 40] {
        let mut scope = scope_with("p", point(3, 4));
        let write = stmt(assign(dot(var("p"), prop("x")), num(v)));
        assert_eq!(engine.eval(&mut scope, &write), Ok(Value::Unit));
        let read = stmt(dot(var("p"), prop("x")));
        assert_eq!(engine.eval(&mut scope, &read), Ok(Value::Int(v)));
    }
}

#[test]
fn method_call_changes_the_variable() {
    let engine = engine_with_points();
    let mut scope = scope_with("p", point(3, 4));
    let ast = stmt(dot(var("p"), call("shift", vec![num(2)])));
    assert_eq!(engine.eval(&mut scope, &ast), Ok(Value::Int(5)));
    assert_eq!(value_of(&scope, "p"), point(5, 4));
}

#[test]
fn method_call_on_a_temporary_is_discarded() {
    let engine = engine_with_points();
    let mut scope = Scope::new();
    let ast = stmt(dot(call("origin", vec![]), call("shift", vec![num(2)])));
    assert_eq!(engine.eval(&mut scope, &ast), Ok(Value::Int(2)));
    assert_eq!(scope.len(), 0);
}

#[test]
fn nested_property_is_written_back_to_the_root() {
    let engine = engine_with_points();
    let outer = Value::Custom(POINT, "Point".to_string(), vec![Value::Int(1), point(3, 4)]);
    let mut scope = scope_with("p", outer);
    // p.y.x = 9
    let ast = stmt(assign(dot(var("p"), dot(prop("y"), prop("x"))), num(9)));
    assert_eq!(engine.eval(&mut scope, &ast), Ok(Value::Unit));
    let expected = Value::Custom(POINT, "Point".to_string(), vec![Value::Int(1), point(9, 4)]);
    assert_eq!(value_of(&scope, "p"), expected);
    // p.y.x
    let read = stmt(dot(var("p"), dot(prop("y"), prop("x"))));
    assert_eq!(engine.eval(&mut scope, &read), Ok(Value::Int(9)));
}

fn holder(items: Vec<Value>) -> Value {
    Value::Custom(POINT, "Point".to_string(), vec![Value::Int(0), Value::Array(items)])
}

#[test]
fn indexed_property_is_read() {
    let engine = engine_with_points();
    let mut scope = scope_with("p", holder(vec![Value::Int(10), Value::Int(20)]));
    // p.y[1]
    let ast = stmt(dot(var("p"), index(prop("y"), num(1))));
    assert_eq!(engine.eval(&mut scope, &ast), Ok(Value::Int(20)));
}

#[test]
fn indexed_property_is_written() {
    let engine = engine_with_points();
    let mut scope = scope_with("p", holder(vec![Value::Int(10), Value::Int(20)]));
    // p.y[1] = 7
    let ast = stmt(assign(dot(var("p"), index(prop("y"), num(1))), num(7)));
    assert_eq!(engine.eval(&mut scope, &ast), Ok(Value::Unit));
    assert_eq!(value_of(&scope, "p"), holder(vec![Value::Int(10), Value::Int(7)]));
}

#[test]
fn indexed_property_write_out_of_bounds_is_an_error() {
    let engine = engine_with_points();
    let mut scope = scope_with("p", holder(vec![Value::Int(10)]));
    let idx = Expr::IntegerConstant(4, p(5, 6));
    let ast = stmt(assign(dot(var("p"), index(prop("y"), idx)), num(7)));
    assert_eq!(engine.eval(&mut scope, &ast), Err(EvalAltResult::ErrorArrayBounds(1, 4, p(5, 6))));
    assert_eq!(value_of(&scope, "p"), holder(vec![Value::Int(10)]));
}

#[test]
fn property_of_an_indexed_property_is_written() {
    let engine = engine_with_points();
    let mut scope = scope_with("p", holder(vec![point(1, 2), point(3, 4)]));
    // p.y[1].x = 9
    let ast = stmt(assign(dot(var("p"), dot(index(prop("y"), num(1)), prop("x"))), num(9)));
    assert_eq!(engine.eval(&mut scope, &ast), Ok(Value::Unit));
    assert_eq!(value_of(&scope, "p"), holder(vec![point(1, 2), point(9, 4)]));
    // p.y[1].x
    let read = stmt(dot(var("p"), dot(index(prop("y"), num(1)), prop("x"))));
    assert_eq!(engine.eval(&mut scope, &read), Ok(Value::Int(9)));
}

#[test]
fn element_of_a_variable_is_the_root_of_a_chain() {
    let engine = engine_with_points();
    let mut scope = scope_with("a", Value::Array(vec![point(1, 2), point(3, 4)]));
    // a[0].x = 5
    let write = stmt(assign(dot(index(var("a"), num(0)), prop("x")), num(5)));
    assert_eq!(engine.eval(&mut scope, &write), Ok(Value::Unit));
    assert_eq!(value_of(&scope, "a"), Value::Array(vec![point(5, 2), point(3, 4)]));
    // a[1].shift(1)
    let method = stmt(dot(index(var("a"), num(1)), call("shift", vec![num(1)])));
    assert_eq!(engine.eval(&mut scope, &method), Ok(Value::Int(4)));
    assert_eq!(value_of(&scope, "a"), Value::Array(vec![point(5, 2), point(4, 4)]));
}

#[test]
fn unknown_property_read_names_the_property() {
    let engine = engine_with_points();
    let mut scope = scope_with("p", point(3, 4));
    let ast = stmt(dot(var("p"), Expr::Property("z".to_string(), p(2, 8))));
    assert_eq!(
        engine.eval(&mut scope, &ast),
        Err(EvalAltResult::ErrorDotExpr(
            "- property 'z' unknown or write-only".to_string(),
            p(2, 8)
        ))
    );
}

#[test]
fn unknown_property_write_names_the_property() {
    let engine = engine_with_points();
    let mut scope = scope_with("p", point(3, 4));
    let ast = stmt(assign(dot(var("p"), Expr::Property("z".to_string(), p(2, 8))), num(1)));
    assert_eq!(
        engine.eval(&mut scope, &ast),
        Err(EvalAltResult::ErrorDotExpr("- property 'z' unknown or read-only".to_string(), p(2, 8)))
    );
    assert_eq!(value_of(&scope, "p"), point(3, 4));
}

#[test]
fn malformed_read_chain_is_a_dot_error() {
    let engine = engine_with_points();
    let mut scope = scope_with("p", point(3, 4));
    let ast = stmt(dot(var("p"), Expr::IntegerConstant(1, p(4, 4))));
    assert_eq!(
        engine.eval(&mut scope, &ast),
        Err(EvalAltResult::ErrorDotExpr(String::new(), p(4, 4)))
    );
}

#[test]
fn malformed_write_chain_is_a_dot_error() {
    let engine = engine_with_points();
    let mut scope = scope_with("p", point(3, 4));
    let ast = stmt(assign(dot(var("p"), Expr::IntegerConstant(1, p(4, 4))), num(1)));
    assert_eq!(
        engine.eval(&mut scope, &ast),
        Err(EvalAltResult::ErrorDotExpr("for assignment".to_string(), p(4, 4)))
    );
}

#[test]
fn deep_index_in_write_chain_is_refused() {
    let engine = engine_with_points();
    let mut scope = scope_with("p", holder(vec![Value::Array(vec![Value::Int(1)])]));
    // p.y[0][0] = 1 : two indices before the end of the chain
    let inner = index(prop("y"), num(0));
    let ast = stmt(assign(
        dot(var("p"), Expr::Index(Box::new(inner), Box::new(num(0)), p(6, 6))),
        num(1),
    ));
    assert_eq!(
        engine.eval(&mut scope, &ast),
        Err(EvalAltResult::ErrorDotExpr("for assignment".to_string(), p(6, 6)))
    );
}

#[test]
fn deep_index_in_read_chain_is_followed() {
    let engine = engine_with_points();
    let mut scope = scope_with("p", holder(vec![Value::Array(vec![Value::Int(1), Value::Int(2)])]));
    // p.y[0][1]
    let ast = stmt(dot(var("p"), index(index(prop("y"), num(0)), num(1))));
    assert_eq!(engine.eval(&mut scope, &ast), Ok(Value::Int(2)));
}

#[test]
fn chain_assignment_to_constant_root_is_refused() {
    let engine = engine_with_points();
    let mut scope = Scope::new();
    scope.push_dynamic("k".to_string(), VariableType::Constant, point(3, 4));
    let ast = stmt(assign(dot(var("k"), prop("x")), num(1)));
    assert_eq!(
        engine.eval(&mut scope, &ast),
        Err(EvalAltResult::ErrorAssignmentToConstant("k".to_string(), p(1, 9)))
    );
    assert_eq!(value_of(&scope, "k"), point(3, 4));
}

#[test]
fn chain_assignment_into_element_of_constant_is_refused() {
    let engine = engine_with_points();
    let mut scope = Scope::new();
    scope.push_dynamic("k".to_string(), VariableType::Constant, Value::Array(vec![point(3, 4)]));
    let ast = stmt(assign(dot(index(var_at("k", p(8, 1)), num(0)), prop("x")), num(1)));
    assert_eq!(
        engine.eval(&mut scope, &ast),
        Err(EvalAltResult::ErrorAssignmentToConstant("k".to_string(), p(8, 1)))
    );
    assert_eq!(value_of(&scope, "k"), Value::Array(vec![point(3, 4)]));
}

#[test]
fn element_assignment_to_constant_is_refused() {
    let engine = engine_with_points();
    let mut scope = Scope::new();
    scope.push_dynamic("k".to_string(), VariableType::Constant, Value::Array(vec![Value::Int(1)]));
    let ast = stmt(assign(index(var_at("k", p(8, 1)), num(0)), num(5)));
    assert_eq!(
        engine.eval(&mut scope, &ast),
        Err(EvalAltResult::ErrorAssignmentToConstant("k".to_string(), p(8, 1)))
    );
    assert_eq!(value_of(&scope, "k"), Value::Array(vec![Value::Int(1)]));
}

#[test]
fn chain_on_missing_variable_is_not_found() {
    let engine = engine_with_points();
    let mut scope = Scope::new();
    let read = stmt(dot(var_at("q", p(3, 3)), prop("x")));
    assert_eq!(
        engine.eval(&mut scope, &read),
        Err(EvalAltResult::ErrorVariableNotFound("q".to_string(), p(3, 3)))
    );
    let write = stmt(assign(dot(var_at("q", p(3, 3)), prop("x")), num(1)));
    assert_eq!(
        engine.eval(&mut scope, &write),
        Err(EvalAltResult::ErrorVariableNotFound("q".to_string(), p(3, 3)))
    );
}

#[test]
fn chain_assignment_to_a_call_is_an_unknown_left_side() {
    let engine = engine_with_points();
    let mut scope = Scope::new();
    let root = call_at("origin", vec![], p(2, 2));
    let ast = stmt(assign(dot(root, prop("x")), num(1)));
    assert_eq!(
        engine.eval(&mut scope, &ast),
        Err(EvalAltResult::ErrorAssignmentToUnknownLHS(p(2, 2)))
    );
}

#[test]
fn failed_chain_leaves_the_variable_alone() {
    let mut engine = engine_with_points();
    engine.register_fn(
        "spoil",
        vec![TypeId::Custom(POINT)],
        native(|a, pos| {
            set_field(&mut a[0], 0, Value::Int(-1));
            Err(EvalAltResult::ErrorRuntime("spoiled".to_string(), pos))
        }),
    );
    let mut scope = scope_with("p", point(3, 4));
    let ast = stmt(dot(var("p"), call("spoil", vec![])));
    assert_eq!(
        engine.eval(&mut scope, &ast),
        Err(EvalAltResult::ErrorRuntime("spoiled".to_string(), p(1, 1)))
    );
    assert_eq!(value_of(&scope, "p"), point(3, 4));
}

#[test]
fn write_back_after_the_root_changed_kind_is_an_error() {
    let engine = engine_with_points();
    let mut scope = scope_with("a", Value::Array(vec![point(1, 2)]));
    // a[0].shift(a = 5): the argument replaces the array while the chain runs
    let argument = assign(var("a"), num(5));
    let chain = Expr::FunctionCall("shift".to_string(), vec![argument], None, p(4, 2));
    let ast = stmt(dot(index(var("a"), num(0)), chain));
    assert_eq!(
        engine.eval(&mut scope, &ast),
        Err(EvalAltResult::ErrorIndexingType("i64".to_string(), p(4, 2)))
    );
    assert_eq!(value_of(&scope, "a"), Value::Int(5));
}

#[test]
fn getter_helpers_build_the_function_names() {
    assert_eq!(script_engine::chain::make_getter("x"), "get$x");
    assert_eq!(script_engine::chain::make_setter("name"), "set$name");
}

#[test]
fn this_is_handed_over_first_and_taken_back() {
    let mut this = Value::Int(1);
    let mut args =
        script_engine::chain::arguments_with_this(&mut this, vec![chars("a"), Value::Bool(true)]);
    assert_eq!(args, vec![Value::Int(1), chars("a"), Value::Bool(true)]);
    assert_eq!(this, Value::Unit);
    args[0] = Value::Int(2);
    script_engine::chain::take_this_back(&mut this, &mut args);
    assert_eq!(this, Value::Int(2));
    let mut none: Vec<Value> = Vec::new();
    script_engine::chain::take_this_back(&mut this, &mut none);
    assert_eq!(this, Value::Int(2));
}

#[test]
fn failed_write_chain_on_element_of_constant_names_the_constant() {
    let engine = engine_with_points();
    let mut scope = Scope::new();
    scope.push_dynamic("k".to_string(), VariableType::Constant, Value::Array(vec![point(3, 4)]));
    // k[0].nothing = 1 : the setter does not exist, and the constant is named all the same
    let ast = stmt(assign(dot(index(var_at("k", p(8, 1)), num(0)), prop("nothing")), num(1)));
    assert_eq!(
        engine.eval(&mut scope, &ast),
        Err(EvalAltResult::ErrorAssignmentToConstant("k".to_string(), p(8, 1)))
    );
    assert_eq!(value_of(&scope, "k"), Value::Array(vec![point(3, 4)]));
}

#[test]
fn failed_read_chain_on_element_of_constant_names_the_constant() {
    let engine = engine_with_points();
    let mut scope = Scope::new();
    scope.push_dynamic("k".to_string(), VariableType::Constant, Value::Array(vec![point(3, 4)]));
    let ast = stmt(dot(index(var_at("k", p(8, 1)), num(0)), prop("nothing")));
    assert_eq!(
        engine.eval(&mut scope, &ast),
        Err(EvalAltResult::ErrorAssignmentToConstant("k".to_string(), p(8, 1)))
    );
    assert_eq!(value_of(&scope, "k"), Value::Array(vec![point(3, 4)]));
}

#[test]
fn read_chain_on_element_of_constant_names_the_constant() {
    let engine = engine_with_points();
    let mut scope = Scope::new();
    scope.push_dynamic("k".to_string(), VariableType::Constant, Value::Array(vec![point(3, 4)]));
    let ast = stmt(dot(index(var_at("k", p(8, 1)), num(0)), prop("x")));
    assert_eq!(
        engine.eval(&mut scope, &ast),
        Err(EvalAltResult::ErrorAssignmentToConstant("k".to_string(), p(8, 1)))
    );
}

#[test]
fn failed_index_on_constant_comes_before_the_refusal() {
    let engine = engine_with_points();
    let mut scope = Scope::new();
    scope.push_dynamic("k".to_string(), VariableType::Constant, Value::Array(vec![point(3, 4)]));
    let seventh = Expr::IntegerConstant(7, p(6, 2));
    let ast = stmt(assign(dot(index(var_at("k", p(8, 1)), seventh), prop("x")), num(1)));
    assert_eq!(
        engine.eval(&mut scope, &ast),
        Err(EvalAltResult::ErrorArrayBounds(1, 7, p(6, 2)))
    );
}

#[test]
fn failed_chain_on_element_of_variable_writes_nothing_back() {
    let engine = engine_with_points();
    let mut scope = scope_with("a", Value::Array(vec![point(3, 4)]));
    let ast = stmt(assign(dot(index(var("a"), num(0)), prop("nothing")), num(1)));
    assert!(matches!(engine.eval(&mut scope, &ast), Err(EvalAltResult::ErrorDotExpr(_, _))));
    assert_eq!(value_of(&scope, "a"), Value::Array(vec![point(3, 4)]));
}

#[test]
fn store_root_writes_the_copy_after_success_only() {
    let mut scope = scope_with("v", Value::Int(1));
    scope.push("w".to_string(), Value::Int(2));
    let kept = TestEngine::store_root(&mut scope, "v", 0, Value::Int(9), Ok(Value::Bool(true)));
    assert_eq!(kept, Ok(Value::Bool(true)));
    assert_eq!(value_of(&scope, "v"), Value::Int(9));
    assert_eq!(value_of(&scope, "w"), Value::Int(2));
    let failed = TestEngine::store_root(
        &mut scope,
        "v",
        0,
        Value::Int(5),
        Err(EvalAltResult::ErrorRuntime("no".to_string(), p(2, 2))),
    );
    assert_eq!(failed, Err(EvalAltResult::ErrorRuntime("no".to_string(), p(2, 2))));
    assert_eq!(value_of(&scope, "v"), Value::Int(9));
}

#[test]
fn store_element_goes_by_the_kind_of_the_root() {
    let engine = engine_with_points();
    let mut scope = scope_with("a", Value::Array(vec![Value::Int(1), Value::Int(2)]));
    scope.push_dynamic("k".to_string(), VariableType::Constant, Value::Array(vec![Value::Int(1)]));
    let failure = || Err(EvalAltResult::ErrorRuntime("no".to_string(), p(2, 2)));
    // an ordinary root: written after success, untouched after failure
    assert_eq!(
        engine.store_element(
            &mut scope,
            IndexSourceType::Array,
            Some(("a", VariableType::Normal, 0)),
            1,
            Value::Int(7),
            Ok(Value::Bool(true)),
            p(3, 3),
            p(4, 4),
        ),
        Ok(Value::Bool(true))
    );
    assert_eq!(value_of(&scope, "a"), Value::Array(vec![Value::Int(1), Value::Int(7)]));
    assert_eq!(
        engine.store_element(
            &mut scope,
            IndexSourceType::Array,
            Some(("a", VariableType::Normal, 0)),
            1,
            Value::Int(8),
            failure(),
            p(3, 3),
            p(4, 4),
        ),
        failure()
    );
    assert_eq!(value_of(&scope, "a"), Value::Array(vec![Value::Int(1), Value::Int(7)]));
    // a constant: refused after success and after failure alike
    for val in [Ok(Value::Bool(true)), failure()] {
        assert_eq!(
            engine.store_element(
                &mut scope,
                IndexSourceType::Array,
                Some(("k", VariableType::Constant, 1)),
                0,
                Value::Int(8),
                val,
                p(3, 3),
                p(4, 4),
            ),
            Err(EvalAltResult::ErrorAssignmentToConstant("k".to_string(), p(3, 3)))
        );
    }
    assert_eq!(value_of(&scope, "k"), Value::Array(vec![Value::Int(1)]));
    // no variable at the root: the outcome of the chain passes
    assert_eq!(
        engine.store_element(
            &mut scope,
            IndexSourceType::Expression,
            None,
            0,
            Value::Int(8),
            failure(),
            p(3, 3),
            p(4, 4),
        ),
        failure()
    );
}

#[test]
fn setter_that_fails_leaves_the_variable_as_it_was() {
    let mut engine = engine_with_points();
    engine.register_fn(
        "set$locked",
        vec![TypeId::Custom(POINT), TypeId::Int],
        native(|a, pos| {
            set_field(&mut a[0], 0, Value::Int(99));
            Err(EvalAltResult::ErrorRuntime("locked".to_string(), pos))
        }),
    );
    let mut scope = scope_with("p", point(3, 4));
    let ast = stmt(assign(dot(var("p"), prop("locked")), num(1)));
    assert_eq!(
        engine.eval(&mut scope, &ast),
        Err(EvalAltResult::ErrorRuntime("locked".to_string(), p(1, 4)))
    );
    assert_eq!(value_of(&scope, "p"), point(3, 4));
}
