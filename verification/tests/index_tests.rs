#![allow(dead_code)]

use script_engine::ast::Position;
use script_engine::engine::{Engine, NativeFunction, OutputSink, TypeIterator};
use script_engine::error::EvalAltResult;
use script_engine::index::IndexSourceType;
use script_engine::scope::{Scope, VariableType};
use script_engine::value::{clone_values, type_ids_of, TypeId, Value};

struct NoFn;

impl NativeFunction for NoFn {
    fn call(&self, _args: &mut [Value], pos: Position) -> Result<Value, EvalAltResult> {
        Err(EvalAltResult::ErrorRuntime(String::new(), pos))
    }
}

struct NoItems;

impl TypeIterator for NoItems {
    fn iterate(&self, _value: &Value) -> Vec<Value> {
        Vec::new()
    }
}

struct Quiet;

impl OutputSink for Quiet {
    fn emit(&self, _text: &str) {}
}

type Plain = Engine<NoFn, NoItems, Quiet>;

fn engine() -> Plain {
    Plain::new(Quiet, Quiet)
}

fn p(line: usize, pos: usize) -> Position {
    Position::new(line, pos)
}

fn chars(s: &str) -> Value {
    Value::Str(s.to_string())
}

fn ints(v: &[i64]) -> Value {
    Value::Array(v.iter().map(|i| Value::Int(*i)).collect())
}

#[test]
fn get_indexed_value_of_an_array() {
    let e = engine();
    let a = Value::Array(vec![Value::Int(1), chars("b")]);
    assert_eq!(
        e.get_indexed_value(&a, 0, p(1, 1), p(2, 2)),
        Ok((Value::Int(1), IndexSourceType::Array))
    );
    assert_eq!(e.get_indexed_value(&a, 1, p(1, 1), p(2, 2)), Ok((chars("b"), IndexSourceType::Array)));
    assert_eq!(
        e.get_indexed_value(&a, 2, p(1, 1), p(2, 2)),
        Err(EvalAltResult::ErrorArrayBounds(2, 2, p(1, 1)))
    );
    assert_eq!(
        e.get_indexed_value(&a, -1, p(1, 1), p(2, 2)),
        Err(EvalAltResult::ErrorArrayBounds(2, -1, p(1, 1)))
    );
    assert_eq!(
        e.get_indexed_value(&ints(&[]), 0, p(1, 1), p(2, 2)),
        Err(EvalAltResult::ErrorArrayBounds(0, 0, p(1, 1)))
    );
    assert_eq!(
        e.get_indexed_value(&a, i64::MAX, p(1, 1), p(2, 2)),
        Err(EvalAltResult::ErrorArrayBounds(2, i64::MAX, p(1, 1)))
    );
}

#[test]
fn get_indexed_value_of_a_string_counts_characters() {
    let e = engine();
    let s = chars("a\u{e9}\u{4e2d}\u{1F600}z");
    let expect = ['a', '\u{e9}', '\u{4e2d}', '\u{1F600}', 'z'];
    for (i, c) in expect.iter().enumerate() {
        assert_eq!(
            e.get_indexed_value(&s, i as i64, p(1, 1), p(2, 2)),
            Ok((Value::Char(*c), IndexSourceType::String))
        );
    }
    assert_eq!(
        e.get_indexed_value(&s, 5, p(1, 1), p(2, 2)),
        Err(EvalAltResult::ErrorStringBounds(5, 5, p(1, 1)))
    );
    assert_eq!(
        e.get_indexed_value(&s, i64::MIN, p(1, 1), p(2, 2)),
        Err(EvalAltResult::ErrorStringBounds(5, i64::MIN, p(1, 1)))
    );
}

#[test]
fn get_indexed_value_of_anything_else_names_the_type() {
    let mut e = engine();
    assert_eq!(
        e.get_indexed_value(&Value::Int(1), 0, p(1, 1), p(2, 2)),
        Err(EvalAltResult::ErrorIndexingType("i64".to_string(), p(2, 2)))
    );
    assert_eq!(
        e.get_indexed_value(&Value::Unit, 0, p(1, 1), p(2, 2)),
        Err(EvalAltResult::ErrorIndexingType("()".to_string(), p(2, 2)))
    );
    let thing = Value::Custom(3, "Thing".to_string(), vec![Value::Int(1)]);
    assert_eq!(
        e.get_indexed_value(&thing, 0, p(1, 1), p(2, 2)),
        Err(EvalAltResult::ErrorIndexingType("Thing".to_string(), p(2, 2)))
    );
    e.register_type_name("Thing", "thing");
    assert_eq!(
        e.get_indexed_value(&thing, 0, p(1, 1), p(2, 2)),
        Err(EvalAltResult::ErrorIndexingType("thing".to_string(), p(2, 2)))
    );
}

#[test]
fn str_replace_char_replaces_one_character() {
    let mut s = "hello".to_string();
    Plain::str_replace_char(&mut s, 1, 'a');
    assert_eq!(s, "hallo");
    Plain::str_replace_char(&mut s, 0, 'H');
    assert_eq!(s, "Hallo");
    Plain::str_replace_char(&mut s, 4, '\u{f6}');
    assert_eq!(s, "Hall\u{f6}");
    Plain::str_replace_char(&mut s, 4, 'o');
    assert_eq!(s, "Hallo");
    Plain::str_replace_char(&mut s, 2, 'l');
    assert_eq!(s, "Hallo");
    let mut wide = "\u{4e2d}\u{6587}".to_string();
    Plain::str_replace_char(&mut wide, 1, 'x');
    assert_eq!(wide, "\u{4e2d}x");
    assert_eq!(wide.chars().count(), 2);
}

#[test]
fn update_indexed_value_gives_the_changed_container() {
    assert_eq!(
        Plain::update_indexed_value(ints(&[1, 2, 3]), 1, chars("x"), p(1, 1)),
        Ok(Value::Array(vec![Value::Int(1), chars("x"), Value::Int(3)]))
    );
    assert_eq!(
        Plain::update_indexed_value(chars("abc"), 2, Value::Char('z'), p(1, 1)),
        Ok(chars("abz"))
    );
    assert_eq!(
        Plain::update_indexed_value(chars("abc"), 2, Value::Int(1), p(3, 4)),
        Err(EvalAltResult::ErrorCharMismatch(p(3, 4)))
    );
    assert_eq!(
        Plain::update_indexed_value(chars("abc"), 0, chars("z"), p(3, 4)),
        Err(EvalAltResult::ErrorCharMismatch(p(3, 4)))
    );
}

#[test]
fn update_indexed_var_in_scope_changes_the_variable() {
    let mut scope = Scope::new();
    scope.push("a".to_string(), ints(&[1, 2]));
    scope.push("s".to_string(), chars("abc"));
    assert_eq!(
        Plain::update_indexed_var_in_scope(
            IndexSourceType::Array,
            &mut scope,
            "a",
            0,
            1,
            Value::Bool(true),
            p(1, 1)
        ),
        Ok(Value::Unit)
    );
    assert_eq!(scope.get("a").unwrap().3, Value::Array(vec![Value::Int(1), Value::Bool(true)]));
    assert_eq!(
        Plain::update_indexed_var_in_scope(
            IndexSourceType::String,
            &mut scope,
            "s",
            1,
            0,
            Value::Char('x'),
            p(1, 1)
        ),
        Ok(Value::Unit)
    );
    assert_eq!(scope.get("s").unwrap().3, chars("xbc"));
    assert_eq!(
        Plain::update_indexed_var_in_scope(
            IndexSourceType::String,
            &mut scope,
            "s",
            1,
            0,
            Value::Int(1),
            p(7, 7)
        ),
        Err(EvalAltResult::ErrorCharMismatch(p(7, 7)))
    );
    assert_eq!(scope.get("s").unwrap().3, chars("xbc"));
    assert_eq!(scope.len(), 2);
}

#[test]
fn holds_element_checks_kind_and_bounds() {
    let mut scope = Scope::new();
    scope.push("a".to_string(), ints(&[1, 2]));
    scope.push("s".to_string(), chars("ab\u{e9}"));
    scope.push("n".to_string(), Value::Int(1));
    assert!(Plain::holds_element(IndexSourceType::Array, &scope, 0, 1));
    assert!(!Plain::holds_element(IndexSourceType::Array, &scope, 0, 2));
    assert!(!Plain::holds_element(IndexSourceType::String, &scope, 0, 0));
    assert!(Plain::holds_element(IndexSourceType::String, &scope, 1, 2));
    assert!(!Plain::holds_element(IndexSourceType::String, &scope, 1, 3));
    assert!(!Plain::holds_element(IndexSourceType::Array, &scope, 2, 0));
    assert!(!Plain::holds_element(IndexSourceType::Expression, &scope, 2, 0));
    assert!(!Plain::holds_element(IndexSourceType::Expression, &scope, 0, 0));
}

#[test]
fn write_back_element_writes_or_says_what_is_there_now() {
    let e = engine();
    let mut scope = Scope::new();
    scope.push("a".to_string(), ints(&[1, 2]));
    assert_eq!(
        e.write_back_element(IndexSourceType::Array, &mut scope, "a", 0, 1, Value::Int(9), p(1, 1)),
        Ok(Value::Unit)
    );
    assert_eq!(scope.get("a").unwrap().3, ints(&[1, 9]));
    assert_eq!(
        e.write_back_element(IndexSourceType::Array, &mut scope, "a", 0, 2, Value::Int(9), p(2, 2)),
        Err(EvalAltResult::ErrorArrayBounds(2, 2, p(2, 2)))
    );
    assert_eq!(
        e.write_back_element(IndexSourceType::String, &mut scope, "a", 0, 0, Value::Char('c'), p(3, 3)),
        Err(EvalAltResult::ErrorIndexingType("array".to_string(), p(3, 3)))
    );
    scope.push("s".to_string(), chars("ab"));
    assert_eq!(
        e.write_back_element(IndexSourceType::String, &mut scope, "s", 1, 5, Value::Char('c'), p(4, 4)),
        Err(EvalAltResult::ErrorStringBounds(2, 5, p(4, 4)))
    );
    assert_eq!(
        e.write_back_element(IndexSourceType::Array, &mut scope, "s", 1, 0, Value::Int(1), p(5, 5)),
        Err(EvalAltResult::ErrorIndexingType("string".to_string(), p(5, 5)))
    );
    scope.push("n".to_string(), Value::Bool(true));
    assert_eq!(
        e.write_back_element(IndexSourceType::Array, &mut scope, "n", 2, 0, Value::Int(1), p(6, 6)),
        Err(EvalAltResult::ErrorIndexingType("bool".to_string(), p(6, 6)))
    );
    assert_eq!(scope.get("a").unwrap().3, ints(&[1, 9]));
    assert_eq!(scope.get("s").unwrap().3, chars("ab"));
}

#[test]
fn search_scope_finds_or_names_the_variable() {
    let mut scope = Scope::new();
    scope.push("x".to_string(), Value::Int(1));
    scope.push_dynamic("x".to_string(), VariableType::Constant, Value::Int(2));
    assert_eq!(
        Plain::search_scope(&scope, "x", p(1, 1)),
        Ok((1, VariableType::Constant, Value::Int(2)))
    );
    assert_eq!(
        Plain::search_scope(&scope, "y", p(4, 5)),
        Err(EvalAltResult::ErrorVariableNotFound("y".to_string(), p(4, 5)))
    );
}

#[test]
fn values_know_their_type() {
    let thing = Value::Custom(9, "Thing".to_string(), vec![]);
    let all = vec![
        (Value::Unit, TypeId::Unit, "()"),
        (Value::Bool(true), TypeId::Bool, "bool"),
        (Value::Int(1), TypeId::Int, "i64"),
        (Value::Char('c'), TypeId::Char, "char"),
        (chars("s"), TypeId::Str, "alloc::string::String"),
        (ints(&[1]), TypeId::Array, "alloc::vec::Vec<Value>"),
        (thing, TypeId::Custom(9), "Thing"),
    ];
    for (value, id, raw) in &all {
        assert_eq!(value.type_id(), *id);
        assert_eq!(value.raw_name(), *raw);
    }
    let values: Vec<Value> = all.iter().map(|(v, _, _)| v.clone()).collect();
    let ids: Vec<TypeId> = all.iter().map(|(_, id, _)| *id).collect();
    assert_eq!(type_ids_of(&values), ids);
    assert_eq!(type_ids_of(&[]), Vec::<TypeId>::new());
}

#[test]
fn clone_is_deep() {
    let inner = Value::Custom(1, "T".to_string(), vec![ints(&[1, 2]), chars("x")]);
    let first = Value::Array(vec![inner, Value::Char('c'), Value::Unit, Value::Bool(false)]);
    let mut copy = first.clone();
    assert_eq!(copy, first);
    if let Value::Array(items) = &mut copy {
        items[1] = Value::Int(0);
    }
    assert_ne!(copy, first);
    let list = vec![Value::Int(1), chars("two")];
    assert_eq!(clone_values(&list), list);
}
