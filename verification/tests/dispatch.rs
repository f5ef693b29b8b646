#![allow(dead_code)]
#![allow(unused_imports)]

use script_engine::ast::{Expr, FnDef, Position, ReturnType, Stmt};
use script_engine::engine::{Engine, NativeFunction, OutputSink, TypeIterator};
use script_engine::error::EvalAltResult;
use script_engine::scope::{Scope, VariableType};
use script_engine::value::{TypeId, Value};
use std::cell::RefCell;
use std::rc::Rc;

struct Native(Box<dyn Fn(&mut [Value], Position) -> Result<Value, EvalAltResult>>);

impl NativeFunction for Native {
    fn call(&self, args: &mut [Value], pos: Position) -> Result<Value, EvalAltResult> {
        (self.0)(args, pos)
    }
}

struct Items(Box<dyn Fn(&Value) -> Vec<Value>>);

impl TypeIterator for Items {
    fn iterate(&self, value: &Value) -> Vec<Value> {
        (self.0)(value)
    }
}

#[derive(Clone)]
struct Lines(Rc<RefCell<Vec<String>>>);

impl OutputSink for Lines {
    fn emit(&self, text: &str) {
        self.0.borrow_mut().push(text.to_string());
    }
}

type TestEngine = Engine<Native, Items, Lines>;

fn lines() -> Lines {
    Lines(Rc::new(RefCell::new(Vec::new())))
}

fn native(f: impl Fn(&mut [Value], Position) -> Result<Value, EvalAltResult> + 'static) -> Native {
    Native(Box::new(f))
}

fn int_of(value: &Value) -> i64 {
    match value {
        Value::Int(i) => *i,
        other => panic!("no integer: {:?}", other),
    }
}

/// An engine with integer arithmetic and comparison, as a host would register them.
fn engine_with_arithmetic() -> TestEngine {
    let mut engine = TestEngine::new(lines(), lines());
    let ints = || vec![TypeId::Int, TypeId::Int];
    engine.register_fn("+", ints(), native(|a, _| Ok(Value::Int(int_of(&a[0]) + int_of(&a[1])))));
    engine.register_fn("-", ints(), native(|a, _| Ok(Value::Int(int_of(&a[0]) - int_of(&a[1])))));
    engine.register_fn("*", ints(), native(|a, _| Ok(Value::Int(int_of(&a[0]) * int_of(&a[1])))));
    engine.register_fn(
        "/",
        ints(),
        native(|a, pos| {
            if int_of(&a[1]) == 0 {
                Err(EvalAltResult::ErrorRuntime("division by zero".to_string(), pos))
            } else {
                Ok(Value::Int(int_of(&a[0]) / int_of(&a[1])))
            }
        }),
    );
    engine.register_fn("<", ints(), native(|a, _| Ok(Value::Bool(int_of(&a[0]) < int_of(&a[1])))));
    engine.register_fn("==", ints(), native(|a, _| Ok(Value::Bool(int_of(&a[0]) == int_of(&a[1])))));
    engine
}

fn p(line: usize, pos: usize) -> Position {
    Position::new(line, pos)
}

fn num(i: i64) -> Expr {
    Expr::IntegerConstant(i, p(1, 1))
}

fn text(s: &str) -> Expr {
    Expr::StringConstant(s.to_string(), p(1, 1))
}

fn var(name: &str) -> Expr {
    Expr::Variable(name.to_string(), p(1, 1))
}

fn var_at(name: &str, pos: Position) -> Expr {
    Expr::Variable(name.to_string(), pos)
}

fn call(name: &str, args: Vec<Expr>) -> Expr {
    Expr::FunctionCall(name.to_string(), args, None, p(1, 1))
}

fn call_at(name: &str, args: Vec<Expr>, pos: Position) -> Expr {
    Expr::FunctionCall(name.to_string(), args, None, pos)
}

fn assign(lhs: Expr, rhs: Expr) -> Expr {
    Expr::Assignment(Box::new(lhs), Box::new(rhs), p(1, 9))
}

fn index(lhs: Expr, idx: Expr) -> Expr {
    Expr::Index(Box::new(lhs), Box::new(idx), p(1, 5))
}

fn dot(lhs: Expr, rhs: Expr) -> Expr {
    Expr::Dot(Box::new(lhs), Box::new(rhs), p(1, 3))
}

fn prop(name: &str) -> Expr {
    Expr::Property(name.to_string(), p(1, 4))
}

fn array(items: Vec<Expr>) -> Expr {
    Expr::Array(items, p(1, 1))
}

fn stmt(expr: Expr) -> Stmt {
    Stmt::Expr(Box::new(expr))
}

fn let_(name: &str, init: Expr) -> Stmt {
    Stmt::Let(name.to_string(), Some(Box::new(init)), p(1, 1))
}

fn const_(name: &str, init: Expr) -> Stmt {
    Stmt::Const(name.to_string(), Box::new(init), p(1, 1))
}

fn block(stmts: Vec<Stmt>) -> Stmt {
    Stmt::Block(stmts, p(1, 1))
}

fn if_(guard: Expr, then: Stmt, other: Option<Stmt>) -> Stmt {
    Stmt::IfElse(Box::new(guard), Box::new(then), other.map(Box::new))
}

fn while_(guard: Expr, body: Stmt) -> Stmt {
    Stmt::While(Box::new(guard), Box::new(body))
}

fn loop_(body: Stmt) -> Stmt {
    Stmt::Loop(Box::new(body))
}

fn return_(value: Expr) -> Stmt {
    Stmt::ReturnWithVal(Some(Box::new(value)), ReturnType::Return, p(1, 1))
}

fn function(name: &str, params: &[&str], body: Stmt) -> FnDef {
    FnDef {
        name: name.to_string(),
        params: params.iter().map(|s| s.to_string()).collect(),
        body,
        pos: p(1, 1),
    }
}

fn chars(s: &str) -> Value {
    Value::Str(s.to_string())
}
use script_engine::engine::Target;
use script_engine::optimize::OptimizationLevel;

fn engine_with_sinks() -> (TestEngine, Lines, Lines) {
    let printed = lines();
    let debugged = lines();
    let mut engine = TestEngine::new(printed.clone(), debugged.clone());
    engine.register_fn("print", vec![TypeId::Str], native(|a, _| Ok(a[0].clone())));
    engine.register_fn(
        "print",
        vec![TypeId::Int],
        native(|a, _| Ok(Value::Str(int_of(&a[0]).to_string()))),
    );
    engine.register_fn("print", vec![TypeId::Bool], native(|a, _| Ok(a[0].clone())));
    engine.register_fn("debug", vec![TypeId::Str], native(|a, _| Ok(a[0].clone())));
    (engine, printed, debugged)
}

fn budget() -> u64 {
    1000
}

#[test]
fn print_routes_the_text_to_its_sink_and_gives_unit() {
    let (engine, printed, debugged) = engine_with_sinks();
    let mut scope = Scope::new();
    assert_eq!(engine.eval(&mut scope, &stmt(call("print", vec![text("hi")]))), Ok(Value::Unit));
    assert_eq!(engine.eval(&mut scope, &stmt(call("print", vec![num(7)]))), Ok(Value::Unit));
    assert_eq!(*printed.0.borrow(), vec!["hi".to_string(), "7".to_string()]);
    assert!(debugged.0.borrow().is_empty());
}

#[test]
fn debug_routes_the_text_to_its_sink() {
    let (engine, printed, debugged) = engine_with_sinks();
    let mut scope = Scope::new();
    assert_eq!(engine.eval(&mut scope, &stmt(call("debug", vec![text("d")]))), Ok(Value::Unit));
    assert_eq!(*debugged.0.borrow(), vec!["d".to_string()]);
    assert!(printed.0.borrow().is_empty());
}

#[test]
fn print_of_a_non_string_result_writes_the_complaint() {
    let (engine, printed, _) = engine_with_sinks();
    let mut scope = Scope::new();
    let ast = stmt(call("print", vec![Expr::True(p(1, 1))]));
    assert_eq!(engine.eval(&mut scope, &ast), Ok(Value::Unit));
    assert_eq!(*printed.0.borrow(), vec!["error: not a string".to_string()]);
}

#[test]
fn replaced_sink_receives_the_text() {
    let (mut engine, printed, _) = engine_with_sinks();
    let other = lines();
    engine.on_print(other.clone());
    let mut scope = Scope::new();
    assert_eq!(engine.eval(&mut scope, &stmt(call("print", vec![text("x")]))), Ok(Value::Unit));
    assert!(printed.0.borrow().is_empty());
    assert_eq!(*other.0.borrow(), vec!["x".to_string()]);
    let third = lines();
    engine.on_debug(third.clone());
    assert_eq!(engine.eval(&mut scope, &stmt(call("debug", vec![text("y")]))), Ok(Value::Unit));
    assert_eq!(*third.0.borrow(), vec!["y".to_string()]);
}

#[test]
fn dump_ast_prints_the_arguments_as_they_stand() {
    let (engine, printed, _) = engine_with_sinks();
    let mut scope = Scope::new();
    let ast = stmt(call("dump_ast", vec![var("missing"), num(1)]));
    assert_eq!(engine.eval(&mut scope, &ast), Ok(Value::Unit));
    let out = printed.0.borrow();
    assert_eq!(out.len(), 1);
    let expected = format!("{:#?}\n{:#?}", var("missing"), num(1));
    assert_eq!(out[0], expected);
}

#[test]
fn dump_ast_without_print_is_function_not_found() {
    let engine = TestEngine::new(lines(), lines());
    let mut scope = Scope::new();
    let arg = Expr::IntegerConstant(1, p(6, 2));
    let ast = stmt(call("dump_ast", vec![arg]));
    assert_eq!(
        engine.eval(&mut scope, &ast),
        Err(EvalAltResult::ErrorFunctionNotFound("print (string)".to_string(), p(6, 2)))
    );
}

#[test]
fn resolve_gives_each_target() {
    let mut engine = engine_with_arithmetic();
    engine.load_script_function(function("f", &["x"], block(vec![])));
    let one = [Value::Int(1)];
    let two = [Value::Int(1), Value::Int(2)];
    assert_eq!(engine.resolve("f", &one, false), Target::Script(0));
    assert_eq!(engine.resolve("f", &two, false), Target::NotFound);
    assert_eq!(engine.resolve("f", &two, true), Target::Default);
    assert_eq!(engine.resolve("+", &two, false), Target::Native(0));
    assert_eq!(engine.resolve("-", &two, false), Target::Native(1));
    assert_eq!(engine.resolve("+", &one, false), Target::NotFound);
    assert_eq!(engine.resolve("type_of", &one, false), Target::TypeOf);
    assert_eq!(engine.resolve("type_of", &two, false), Target::NotFound);
    assert_eq!(engine.resolve("get$x", &one, true), Target::UnknownGetter);
    assert_eq!(engine.resolve("set$x", &two, true), Target::UnknownSetter);
    assert_eq!(engine.resolve("get", &one, false), Target::NotFound);
}

#[test]
fn dispatch_goes_by_argument_types() {
    let mut engine = engine_with_arithmetic();
    engine.register_fn(
        "+",
        vec![TypeId::Str, TypeId::Str],
        native(|a, _| match (&a[0], &a[1]) {
            (Value::Str(x), Value::Str(y)) => Ok(Value::Str(format!("{}{}", x, y))),
            _ => panic!("types"),
        }),
    );
    let mut scope = Scope::new();
    let ints = stmt(call("+", vec![num(1), num(2)]));
    let strs = stmt(call("+", vec![text("a"), text("b")]));
    assert_eq!(engine.eval(&mut scope, &ints), Ok(Value::Int(3)));
    assert_eq!(engine.eval(&mut scope, &strs), Ok(chars("ab")));
    assert_eq!(engine.eval(&mut scope, &ints), Ok(Value::Int(3)));
    let mixed = stmt(call_at("+", vec![num(1), text("b")], p(2, 5)));
    assert_eq!(
        engine.eval(&mut scope, &mixed),
        Err(EvalAltResult::ErrorFunctionNotFound("+ (i64, string)".to_string(), p(2, 5)))
    );
}

#[test]
fn registering_under_the_same_key_replaces_the_function() {
    let mut engine = engine_with_arithmetic();
    engine.register_fn("+", vec![TypeId::Int, TypeId::Int], native(|_, _| Ok(Value::Int(-1))));
    let mut scope = Scope::new();
    assert_eq!(engine.eval(&mut scope, &stmt(call("+", vec![num(1), num(2)]))), Ok(Value::Int(-1)));
    assert_eq!(engine.resolve("+", &[Value::Int(1), Value::Int(2)], false), Target::Native(0));
}

#[test]
fn function_not_found_lists_name_and_types() {
    let engine = engine_with_arithmetic();
    let mut args = vec![Value::Int(1), chars("x"), Value::Array(vec![]), Value::Unit];
    let mut left = budget();
    assert_eq!(
        engine.call_fn_raw("nothing", &mut args, None, p(3, 1), &mut left),
        Err(EvalAltResult::ErrorFunctionNotFound(
            "nothing (i64, string, array, ())".to_string(),
            p(3, 1)
        ))
    );
    let mut none: Vec<Value> = Vec::new();
    assert_eq!(
        engine.call_fn_raw("nothing", &mut none, None, p(3, 1), &mut left),
        Err(EvalAltResult::ErrorFunctionNotFound("nothing ()".to_string(), p(3, 1)))
    );
    assert_eq!(left, budget());
}

#[test]
fn default_value_is_given_where_nothing_is_found() {
    let engine = engine_with_arithmetic();
    let mut args = vec![chars("x")];
    let mut left = budget();
    let default = Value::Int(9);
    assert_eq!(
        engine.call_fn_raw("nothing", &mut args, Some(&default), p(1, 1), &mut left),
        Ok(Value::Int(9))
    );
    let mut scope = Scope::new();
    let ast = stmt(Expr::FunctionCall(
        "nothing".to_string(),
        vec![num(1)],
        Some(Value::Bool(true)),
        p(1, 1),
    ));
    assert_eq!(engine.eval(&mut scope, &ast), Ok(Value::Bool(true)));
}

#[test]
fn missing_getter_and_setter_come_before_the_default() {
    let engine = engine_with_arithmetic();
    let mut left = budget();
    let default = Value::Int(9);
    let mut one = vec![Value::Int(1)];
    assert_eq!(
        engine.call_fn_raw("get$size", &mut one, Some(&default), p(2, 2), &mut left),
        Err(EvalAltResult::ErrorDotExpr(
            "- property 'size' unknown or write-only".to_string(),
            p(2, 2)
        ))
    );
    let mut two = vec![Value::Int(1), Value::Int(2)];
    assert_eq!(
        engine.call_fn_raw("set$size", &mut two, Some(&default), p(2, 2), &mut left),
        Err(EvalAltResult::ErrorDotExpr(
            "- property 'size' unknown or read-only".to_string(),
            p(2, 2)
        ))
    );
    let mut bare = vec![Value::Int(1)];
    assert_eq!(
        engine.call_fn_raw("get$", &mut bare, None, p(2, 2), &mut left),
        Err(EvalAltResult::ErrorDotExpr("- property '' unknown or write-only".to_string(), p(2, 2)))
    );
}

#[test]
fn type_of_with_custom_type() {
    let mut engine = engine_with_arithmetic();
    let mut left = budget();
    let mut args = vec![Value::Custom(4, "my::Thing".to_string(), vec![])];
    assert_eq!(
        engine.call_fn_raw("type_of", &mut args, None, p(1, 1), &mut left),
        Ok(chars("my::Thing"))
    );
    engine.register_type_name("my::Thing", "thing");
    assert_eq!(
        engine.call_fn_raw("type_of", &mut args, None, p(1, 1), &mut left),
        Ok(chars("thing"))
    );
    assert_eq!(engine.map_type_name("my::Thing"), "thing");
    assert_eq!(engine.map_type_name("other"), "other");
    assert_eq!(engine.map_type_name("alloc::string::String"), "string");
    assert_eq!(engine.map_type_name("alloc::vec::Vec<Value>"), "array");
    assert_eq!(engine.map_type_name("Value"), "dynamic");
}

#[test]
fn type_of_can_be_overridden_by_script_and_host() {
    let mut engine = engine_with_arithmetic();
    let mut scope = Scope::new();
    let ast = stmt(call("type_of", vec![num(1)]));
    engine.register_fn("type_of", vec![TypeId::Int], native(|_, _| Ok(chars("host"))));
    assert_eq!(engine.eval(&mut scope, &ast), Ok(chars("host")));
    engine.load_script_function(function("type_of", &["x"], block(vec![stmt(text("script"))])));
    assert_eq!(engine.eval(&mut scope, &ast), Ok(chars("script")));
}

#[test]
fn native_function_may_change_its_arguments() {
    let mut engine = engine_with_arithmetic();
    engine.register_fn(
        "bump",
        vec![TypeId::Int],
        native(|a, _| {
            a[0] = Value::Int(int_of(&a[0]) + 1);
            Ok(Value::Unit)
        }),
    );
    let mut args = vec![Value::Int(1)];
    let mut left = budget();
    assert_eq!(engine.call_fn_raw("bump", &mut args, None, p(1, 1), &mut left), Ok(Value::Unit));
    assert_eq!(args, vec![Value::Int(2)]);
}

#[test]
fn native_error_passes_through() {
    let engine = engine_with_arithmetic();
    let mut args = vec![Value::Int(1), Value::Int(0)];
    let mut left = budget();
    assert_eq!(
        engine.call_fn_raw("/", &mut args, None, p(4, 4), &mut left),
        Err(EvalAltResult::ErrorRuntime("division by zero".to_string(), p(4, 4)))
    );
}

#[test]
fn call_ext_fn_raw_sees_only_native_functions() {
    let mut engine = engine_with_arithmetic();
    engine.load_script_function(function("f", &["x"], block(vec![stmt(num(1))])));
    let mut args = vec![Value::Int(2), Value::Int(3)];
    assert_eq!(engine.call_ext_fn_raw("+", &mut args, p(1, 1)), Ok(Some(Value::Int(5))));
    let mut one = vec![Value::Int(2)];
    assert_eq!(engine.call_ext_fn_raw("f", &mut one, p(1, 1)), Ok(None));
    assert_eq!(engine.call_ext_fn_raw("type_of", &mut one, p(1, 1)), Ok(None));
    let mut zero = vec![Value::Int(2), Value::Int(0)];
    assert_eq!(
        engine.call_ext_fn_raw("/", &mut zero, p(1, 1)),
        Err(EvalAltResult::ErrorRuntime("division by zero".to_string(), p(1, 1)))
    );
}

#[test]
fn script_functions_are_found_by_name_and_arity() {
    let mut engine = engine_with_arithmetic();
    engine.load_script_function(function("g", &["a", "b"], block(vec![stmt(num(2))])));
    engine.load_script_function(function("g", &["a"], block(vec![stmt(num(1))])));
    engine.load_script_function(function("a", &[], block(vec![stmt(num(0))])));
    engine.load_script_function(function("z", &["q"], block(vec![stmt(var("q"))])));
    let mut scope = Scope::new();
    assert_eq!(engine.eval(&mut scope, &stmt(call("g", vec![num(5)]))), Ok(Value::Int(1)));
    assert_eq!(engine.eval(&mut scope, &stmt(call("g", vec![num(5), num(6)]))), Ok(Value::Int(2)));
    assert_eq!(engine.eval(&mut scope, &stmt(call("a", vec![]))), Ok(Value::Int(0)));
    assert_eq!(engine.eval(&mut scope, &stmt(call("z", vec![num(8)]))), Ok(Value::Int(8)));
    assert_eq!(engine.resolve("a", &[], false), Target::Script(0));
    assert_eq!(engine.resolve("g", &[Value::Unit], false), Target::Script(1));
    assert_eq!(engine.resolve("g", &[Value::Unit, Value::Unit], false), Target::Script(2));
    assert_eq!(engine.resolve("z", &[Value::Unit], false), Target::Script(3));
    assert_eq!(engine.script_at(1).params.len(), 1);
}

#[test]
fn script_function_runs_in_its_own_scope() {
    let mut engine = engine_with_arithmetic();
    engine.load_script_function(function("peek", &[], block(vec![stmt(var_at("outer", p(5, 5)))])));
    engine.load_script_function(function(
        "change",
        &["x"],
        block(vec![stmt(assign(var("x"), num(0))), stmt(var("x"))]),
    ));
    let mut scope = Scope::new();
    scope.push("outer".to_string(), Value::Int(1));
    assert_eq!(
        engine.eval(&mut scope, &stmt(call("peek", vec![]))),
        Err(EvalAltResult::ErrorVariableNotFound("outer".to_string(), p(5, 5)))
    );
    assert_eq!(engine.eval(&mut scope, &stmt(call("change", vec![var("outer")]))), Ok(Value::Int(0)));
    assert_eq!(scope.get("outer").unwrap().3, Value::Int(1));
    assert_eq!(scope.len(), 1);
}

#[test]
fn return_ends_the_function_and_break_escapes_it() {
    let mut engine = engine_with_arithmetic();
    engine.load_script_function(function(
        "early",
        &[],
        block(vec![return_(num(1)), stmt(var("never"))]),
    ));
    engine.load_script_function(function("leak", &[], block(vec![Stmt::Break(p(7, 7))])));
    engine.load_script_function(function(
        "fail",
        &[],
        block(vec![Stmt::ReturnWithVal(
            Some(Box::new(text("boom"))),
            ReturnType::Exception,
            p(8, 8),
        )]),
    ));
    let mut scope = Scope::new();
    assert_eq!(engine.eval(&mut scope, &stmt(call("early", vec![]))), Ok(Value::Int(1)));
    assert_eq!(
        engine.eval(&mut scope, &stmt(call("leak", vec![]))),
        Err(EvalAltResult::ErrorLoopBreak(p(7, 7)))
    );
    assert_eq!(
        engine.eval(&mut scope, &stmt(call("fail", vec![]))),
        Err(EvalAltResult::ErrorRuntime("boom".to_string(), p(8, 8)))
    );
}

#[test]
fn script_call_costs_one_operation() {
    let mut engine = engine_with_arithmetic();
    engine.load_script_function(function("one", &[], block(vec![stmt(num(1))])));
    let mut args: Vec<Value> = Vec::new();
    let mut left = 3;
    assert_eq!(engine.call_fn_raw("one", &mut args, None, p(1, 1), &mut left), Ok(Value::Int(1)));
    assert_eq!(left, 2);
    let mut none = 0;
    assert_eq!(
        engine.call_fn_raw("one", &mut args, None, p(9, 1), &mut none),
        Err(EvalAltResult::ErrorTooManyOperations(p(9, 1)))
    );
}

#[test]
fn endless_recursion_runs_out_of_operations() {
    let mut engine = engine_with_arithmetic();
    engine.load_script_function(function(
        "down",
        &["n"],
        block(vec![stmt(call_at("down", vec![var("n")], p(2, 2)))]),
    ));
    engine.set_max_operations(50);
    assert_eq!(engine.max_operations(), 50);
    let mut scope = Scope::new();
    assert_eq!(
        engine.eval(&mut scope, &stmt(call("down", vec![num(1)]))),
        Err(EvalAltResult::ErrorTooManyOperations(p(2, 2)))
    );
}

#[test]
fn clear_functions_keeps_what_the_host_registered() {
    let mut engine = engine_with_arithmetic();
    engine.load_script_function(function("f", &[], block(vec![stmt(num(1))])));
    engine.clear_functions();
    let mut scope = Scope::new();
    assert_eq!(
        engine.eval(&mut scope, &stmt(call("f", vec![]))),
        Err(EvalAltResult::ErrorFunctionNotFound("f ()".to_string(), p(1, 1)))
    );
    assert_eq!(engine.eval(&mut scope, &stmt(call("+", vec![num(1), num(1)]))), Ok(Value::Int(2)));
}

#[test]
fn iterators_are_found_by_type() {
    let mut engine = engine_with_arithmetic();
    assert!(!engine.has_iterator(TypeId::Int));
    assert_eq!(engine.iterate(&Value::Int(3)), None);
    engine.register_iterator(
        TypeId::Int,
        Items(Box::new(|v| (0..int_of(v)).map(Value::Int).collect())),
    );
    assert!(engine.has_iterator(TypeId::Int));
    assert!(!engine.has_iterator(TypeId::Str));
    assert_eq!(
        engine.iterate(&Value::Int(3)),
        Some(vec![Value::Int(0), Value::Int(1), Value::Int(2)])
    );
    engine.register_iterator(TypeId::Int, Items(Box::new(|_| vec![Value::Unit])));
    assert_eq!(engine.iterate(&Value::Int(3)), Some(vec![Value::Unit]));
}

#[test]
fn optimization_level_is_set() {
    let mut engine = engine_with_arithmetic();
    engine.set_optimization_level(OptimizationLevel::Full);
    engine.set_optimization_level(OptimizationLevel::Off);
    let mut scope = Scope::new();
    assert_eq!(engine.eval(&mut scope, &stmt(call("+", vec![num(1), num(1)]))), Ok(Value::Int(2)));
}
