//! Calls: a call finds a script function, a native function or one of the built-in
//! answers, and comes back with a value or an error.

use crate::ast::{Expr, Position};
use crate::engine::{
    not_found_text, printed_text, Engine, NativeFunction, OutputSink, Target, TypeIterator,
    FUNC_GETTER, FUNC_SETTER, KEYWORD_DEBUG, KEYWORD_DUMP_AST, KEYWORD_PRINT,
};
use crate::error::{outcome, EvalAltResult, SpecError};
use crate::eval::{agrees, kept};
use crate::meaning::call_scope;
use crate::scope::Scope;
use crate::text::{join, text_eq};
use crate::value::{type_ids, views, SpecValue, Value};
use vstd::pervasive::unreached;
use vstd::prelude::*;
use vstd::string::*;

verus! {

broadcast use crate::value::group_views;

/// The debug rendering of an expression, as `format!` gives it for `{:#?}`. The text is
/// what the derived `Debug` writes; nothing is claimed of it.
#[verifier::external_body]
fn debug_text(expr: &Expr) -> String {
    format!("{:#?}", expr)
}

/// What `print` and `debug` write for a value.
pub fn print_text(value: &Value) -> (r: String)
    ensures
        r@ == printed_text(value@),
{
    match value {
        Value::Str(s) => s.clone(),
        _ => "error: not a string".to_string(),
    }
}

/// What a call of a script function hands on from its body: a `return` becomes the value
/// of the call, everything else passes.
pub fn returned(result: Result<Value, EvalAltResult>) -> (r: Result<Value, EvalAltResult>)
    ensures
        outcome(r) == crate::meaning::returned(outcome(result)),
{
    match result {
        Err(EvalAltResult::Return(value, _)) => Ok(value),
        other => other,
    }
}

impl<F: NativeFunction, I: TypeIterator, S: OutputSink> Engine<F, I, S> {
    /// What a native function's value becomes: `print` and `debug` write it to their sink
    /// and give unit, every other function gives its value.
    pub fn finish_native_call(&self, fn_name: &str, result: Value) -> (r: Value)
        ensures
            r@ == if fn_name@ == KEYWORD_PRINT@ || fn_name@ == KEYWORD_DEBUG@ {
                SpecValue::Unit
            } else {
                result@
            },
    {
        if text_eq(fn_name, KEYWORD_PRINT) {
            let text = print_text(&result);
            self.print(text.as_str());
            Value::Unit
        } else if text_eq(fn_name, KEYWORD_DEBUG) {
            let text = print_text(&result);
            self.debug(text.as_str());
            Value::Unit
        } else {
            result
        }
    }

    /// The error for a getter or a setter that nobody registered.
    fn unknown_property(fn_name: &str, prefix: &str, tail: &str, pos: Position) -> (r:
        EvalAltResult)
        requires
            crate::text::is_prefix(prefix@, fn_name@),
        ensures
            r@ == SpecError::DotExpr(
                "- property '"@ + fn_name@.subrange(prefix@.len() as int, fn_name@.len() as int)
                    + tail@,
                pos,
            ),
    {
        let count = fn_name.unicode_len();
        let skip = prefix.unicode_len();
        let mut text = "- property '".to_string();
        text.append(fn_name.substring_char(skip, count));
        text.append(tail);
        EvalAltResult::ErrorDotExpr(text, pos)
    }

    /// The error for a call that found no function.
    fn function_not_found(&self, fn_name: &str, args: &[Value], pos: Position) -> (r:
        EvalAltResult)
        ensures
            r@ == SpecError::FunctionNotFound(
                not_found_text(fn_name@, self.pretty_types(views(args@))),
                pos,
            ),
    {
        let types = self.pretty_type_names(args);
        let list = join(&types, ", ");
        let mut text = fn_name.to_string();
        text.append(" (");
        text.append(list.as_str());
        text.append(")");
        EvalAltResult::ErrorFunctionNotFound(text, pos)
    }

    /// Calls a function by name: a script function of that name and arity, else a native
    /// function under that name and the types of the arguments, else one of the built-in
    /// answers. A call of a script function costs one operation.
    pub fn call_fn_raw(
        &self,
        fn_name: &str,
        args: &mut Vec<Value>,
        def_val: Option<&Value>,
        pos: Position,
        budget: &mut u64,
    ) -> (r: Result<Value, EvalAltResult>)
        requires
            self.well_formed(),
        ensures
            *final(budget) <= *old(budget),
            self.meaning_call(
                fn_name@,
                views(old(args)@),
                match def_val {
                    Some(value) => Some(value@),
                    None => None,
                },
                pos,
                *old(budget) as nat,
            ) matches Some((o, after, left)) ==> outcome(r) == o && views(final(args)@) == after
                && *final(budget) == left,
            self.spec_resolve(fn_name@, type_ids(views(old(args)@)), def_val is Some)
                matches Target::Script(_) ==> !(r matches Err(EvalAltResult::Return(_, _))),
        decreases *old(budget), 0nat, 0nat,
    {
        match self.resolve(fn_name, args.as_slice(), def_val.is_some()) {
            Target::Script(n) => {
                if *budget == 0 {
                    return Err(EvalAltResult::ErrorTooManyOperations(pos));
                }
                *budget = *budget - 1;
                let fn_def = self.script_at(n);
                let mut scope = Scope::new();
                let ghost bound = call_scope(fn_def.params@, views(args@));
                let mut i: usize = 0;
                while i < fn_def.params.len() && i < args.len()
                    invariant
                        i <= fn_def.params.len(),
                        i <= args.len(),
                        bound == call_scope(fn_def.params@, views(args@)),
                        scope@ == bound.subrange(0, i as int),
                    decreases args.len() - i,
                {
                    scope.push(fn_def.params[i].clone(), args[i].clone());
                    i = i + 1;
                }
                proof {
                    assert(scope@ =~= bound);
                }
                returned(self.eval_stmt(&mut scope, &fn_def.body, budget))
            },
            Target::Native(i) => {
                match self.call_native(i, args.as_mut_slice(), pos) {
                    Ok(value) => Ok(self.finish_native_call(fn_name, value)),
                    Err(error) => Err(error),
                }
            },
            Target::TypeOf => {
                let raw = args[0].raw_name();
                Ok(Value::Str(self.map_type_name(raw.as_str())))
            },
            Target::UnknownGetter => Err(
                Self::unknown_property(fn_name, FUNC_GETTER, "' unknown or write-only", pos),
            ),
            Target::UnknownSetter => Err(
                Self::unknown_property(fn_name, FUNC_SETTER, "' unknown or read-only", pos),
            ),
            Target::Default => match def_val {
                Some(value) => Ok(value.clone()),
                None => unreached(),
            },
            Target::NotFound => Err(self.function_not_found(fn_name, args.as_slice(), pos)),
        }
    }

    /// Evaluates a call `name(args)`. `dump_ast` writes its arguments as they stand, through
    /// `print`; every other call evaluates its arguments from left to right and then finds
    /// its function.
    pub fn eval_call(&self, scope: &mut Scope, expr: &Expr, budget: &mut u64) -> (r: Result<
        Value,
        EvalAltResult,
    >)
        requires
            self.well_formed(),
            expr.evaluable(),
            expr is FunctionCall,
        ensures
            kept(old(scope)@, final(scope)@, *old(budget), *final(budget)),
            expr.scoped() ==> final(scope)@.len() == old(scope)@.len(),
            expr->FunctionCall_0@ == KEYWORD_DUMP_AST@ ==> final(scope)@ == old(scope)@,
            agrees(
                self.meaning_call_site(expr, old(scope)@, *old(budget) as nat),
                r,
                final(scope)@,
                *final(budget),
            ),
        decreases *old(budget), expr.size(), 0nat,
    {
        match expr {
            Expr::FunctionCall(fn_name, args_expr_list, def_val, pos) => {
                if text_eq(fn_name.as_str(), KEYWORD_DUMP_AST) {
                    let pos = if args_expr_list.len() == 0 {
                        *pos
                    } else {
                        args_expr_list[0].position()
                    };
                    let mut texts: Vec<String> = Vec::new();
                    let mut i: usize = 0;
                    while i < args_expr_list.len()
                        invariant
                            i <= args_expr_list.len(),
                        decreases args_expr_list.len() - i,
                    {
                        texts.push(debug_text(&args_expr_list[i]));
                        i = i + 1;
                    }
                    let mut values: Vec<Value> = Vec::new();
                    values.push(Value::Str(join(&texts, "\n")));
                    self.call_fn_raw(KEYWORD_PRINT, &mut values, None, pos, budget)
                } else {
                    let mut values = self.eval_exprs(scope, args_expr_list, budget)?;
                    self.call_fn_raw(
                        fn_name.as_str(),
                        &mut values,
                        match def_val {
                            Some(value) => Some(value),
                            None => None,
                        },
                        *pos,
                        budget,
                    )
                }
            },
            _ => unreached(),
        }
    }
}

} // verus!
