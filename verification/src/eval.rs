//! The evaluator: it walks expressions and statements, keeps the scope in step with the
//! blocks it enters and leaves, and spends the budget of operations on loops and calls.

use crate::ast::{
    all_evaluable, all_scoped, all_stmts_evaluable, lemma_constant_evaluable, lemma_item_size,
    lemma_size_positive, lemma_stmt_size, sizes, stmt_sizes, Expr, Position, ReturnType, Stmt,
};
use crate::engine::{Engine, NativeFunction, OutputSink, TypeIterator};
use crate::error::{outcome, EvalAltResult, SpecError};
use crate::index::{element_at, source_of, IndexSourceType};
use crate::meaning::{
    assign_element, assign_variable, bool_operand, guard_value, index_value, thrown_text,
    ChainMeaning, Meaning, SpecIndexed,
};
use crate::scope::{
    extends, lemma_not_only_constant, only_constant, Scope, SpecBinding, VariableType,
};
use crate::value::{views, SpecValue, Value, INT};
use vstd::pervasive::unreached;
use vstd::prelude::*;

verus! {

broadcast use crate::value::group_views;

/// What an index expression resolved to: the kind of container, the variable that holds it
/// (its name, kind and index in the scope) if it is one, the index, and the element.
pub type Indexed<'a> = (IndexSourceType, Option<(&'a str, VariableType, usize)>, usize, Value);

/// What every evaluation keeps: the bindings that were there stay, under their names and
/// of their kinds, and the budget does not grow.
pub open spec fn kept(
    before: Seq<SpecBinding>,
    after: Seq<SpecBinding>,
    budget_before: u64,
    budget_after: u64,
) -> bool {
    extends(before, after) && budget_after <= budget_before
}

/// Where the program has a meaning, the evaluation ended in it, left the scope it says,
/// and left of the budget what it says.
pub open spec fn agrees(
    meaning: Meaning,
    r: Result<Value, EvalAltResult>,
    after: Seq<SpecBinding>,
    budget_after: u64,
) -> bool {
    meaning matches Some((o, s, left)) ==> outcome(r) == o && after == s && budget_after == left
}

/// [`agrees`] for a step of a dot chain: the value that the chain works on is left as the
/// meaning says.
pub open spec fn agrees_this(
    meaning: ChainMeaning,
    r: Result<Value, EvalAltResult>,
    after: Seq<SpecBinding>,
    budget_after: u64,
    this_after: SpecValue,
) -> bool {
    meaning matches Some((o, t, s, left)) ==> outcome(r) == o && this_after == t && after == s
        && budget_after == left
}

/// The model of the root that an index expression recorded.
pub open spec fn root_view(root: Option<(&str, VariableType, usize)>) -> Option<
    (Seq<char>, VariableType, int),
> {
    match root {
        Some((id, kind, src_idx)) => Some((id@, kind, src_idx as int)),
        None => None,
    }
}

/// The model of what resolving an index expression ended in.
pub open spec fn indexed_outcome(r: Result<Indexed<'_>, EvalAltResult>) -> Result<
    SpecIndexed,
    SpecError,
> {
    match r {
        Ok((source, root, index, value)) => Ok(
            SpecIndexed { source, root: root_view(root), index: index as int, value: value@ },
        ),
        Err(error) => Err(error@),
    }
}

/// The model of what evaluating a list ended in.
pub open spec fn list_outcome(r: Result<Vec<Value>, EvalAltResult>) -> Result<
    Seq<SpecValue>,
    SpecError,
> {
    match r {
        Ok(values) => Ok(views(values@)),
        Err(error) => Err(error@),
    }
}

/// The name of `&&` (`conj`) or of `||` in an error.
pub open spec fn operator_text(conj: bool) -> Seq<char> {
    if conj {
        "AND"@
    } else {
        "OR"@
    }
}

/// What `&&` or `||` ends in once its right operand ended in `right`: the operand as a
/// boolean, the error that it is none, or the error of the operand.
pub open spec fn operand_outcome(
    right: Result<SpecValue, SpecError>,
    operator: Seq<char>,
    pos: Position,
) -> Result<SpecValue, SpecError> {
    match right {
        Ok(value) => match bool_operand(value, operator, pos) {
            Ok(b) => Ok(SpecValue::Bool(b)),
            Err(error) => Err(error),
        },
        Err(error) => Err(error),
    }
}

/// An operand of `&&` or `||` as a boolean.
pub fn as_bool_operand(value: Value, operator: &str, pos: Position) -> (r: Result<
    bool,
    EvalAltResult,
>)
    ensures
        match r {
            Ok(b) => bool_operand(value@, operator@, pos) == Ok::<_, SpecError>(b),
            Err(error) => bool_operand(value@, operator@, pos) == Err::<bool, _>(error@),
        },
{
    match value {
        Value::Bool(b) => Ok(b),
        _ => Err(EvalAltResult::ErrorBooleanArgMismatch(operator.to_string(), pos)),
    }
}

/// The guard of an `if` or a `while` as a boolean.
pub fn as_guard(value: Value, pos: Position) -> (r: Result<bool, EvalAltResult>)
    ensures
        match r {
            Ok(b) => guard_value(value@, pos) == Ok::<_, SpecError>(b),
            Err(error) => guard_value(value@, pos) == Err::<bool, _>(error@),
        },
{
    match value {
        Value::Bool(b) => Ok(b),
        _ => Err(EvalAltResult::ErrorIfGuard(pos)),
    }
}

/// The value of an index as an integer.
pub fn as_index(value: Value, pos: Position) -> (r: Result<INT, EvalAltResult>)
    ensures
        match r {
            Ok(i) => index_value(value@, pos) == Ok::<_, SpecError>(i as int),
            Err(error) => index_value(value@, pos) == Err::<int, _>(error@),
        },
{
    match value {
        Value::Int(i) => Ok(i),
        _ => Err(EvalAltResult::ErrorIndexExpr(pos)),
    }
}

/// The message of a `throw`: the text of a string, and nothing for any other value.
pub fn thrown_message(value: Value) -> (r: String)
    ensures
        r@ == thrown_text(value@),
{
    match value {
        Value::Str(s) => s,
        _ => String::new(),
    }
}

/// Assigns a value to the newest variable of a name: a constant refuses it.
pub fn assign_to_variable(
    scope: &mut Scope,
    name: &str,
    value: Value,
    pos: Position,
    op_pos: Position,
) -> (r: Result<Value, EvalAltResult>)
    ensures
        (outcome(r), final(scope)@) == assign_variable(old(scope)@, name@, value@, pos, op_pos),
        extends(old(scope)@, final(scope)@),
        final(scope)@.len() == old(scope)@.len(),
        only_constant(final(scope)@, name@) ==> r is Err,
{
    match scope.get(name) {
        Some((index, _, VariableType::Normal, _)) => {
            let slot = scope.get_mut(name, index);
            *slot = value.clone();
            proof {
                lemma_not_only_constant(scope@, index as int, name@);
            }
            Ok(value)
        },
        Some((_, _, VariableType::Constant, _)) => Err(
            EvalAltResult::ErrorAssignmentToConstant(name.to_string(), op_pos),
        ),
        None => Err(EvalAltResult::ErrorVariableNotFound(name.to_string(), pos)),
    }
}

/// The expression is an assignment to a variable, or into one through an index or a dot
/// chain, and the scope holds the variable as a constant only.
pub open spec fn refused(expr: &Expr, scope: Seq<SpecBinding>) -> bool {
    expr matches Expr::Assignment(lhs, _, _) && lhs.root_variable() matches Some(name)
        && only_constant(scope, name)
}

/// The root that an index expression recorded is a variable of the scope that holds a
/// container of the recorded kind with the recorded element at the index.
pub open spec fn rooted(scope: Seq<SpecBinding>, target: SpecIndexed) -> bool {
    match target.root {
        Some((id, kind, src_idx)) => {
            &&& 0 <= src_idx < scope.len()
            &&& scope[src_idx].name == id
            &&& scope[src_idx].kind == kind
            &&& source_of(scope[src_idx].value) == target.source
            &&& element_at(scope[src_idx].value, target.index) == Some(target.value)
        },
        None => target.source == IndexSourceType::Expression,
    }
}

impl<F: NativeFunction, I: TypeIterator, S: OutputSink> Engine<F, I, S> {
    /// Evaluates a program against a scope, with the engine's budget of operations.
    ///
    /// The bindings that the scope had stay, under their names and of their kinds; a block
    /// leaves the scope as long as it found it, whatever it ends in, and a declaration
    /// that fails binds nothing. Where the program has a meaning, it ends in exactly that.
    pub fn eval(&self, scope: &mut Scope, ast: &Stmt) -> (r: Result<Value, EvalAltResult>)
        requires
            self.well_formed(),
            ast.evaluable(),
        ensures
            extends(old(scope)@, final(scope)@),
            ast.scoped() ==> final(scope)@.len() == old(scope)@.len(),
            ast.fails_cleanly() && r is Err ==> final(scope)@.len() == old(scope)@.len(),
            self.meaning_stmt(ast, old(scope)@, self.operations_limit() as nat) matches Some(
                (o, s, _),
            ) ==> outcome(r) == o && final(scope)@ == s,
    {
        let mut budget = self.max_operations();
        self.eval_stmt(scope, ast, &mut budget)
    }

    /// Assigns a value to the element that an index expression resolved to. Only an element of
    /// a variable can be assigned to, and a constant refuses it.
    pub fn assign_to_element(
        scope: &mut Scope,
        target: Indexed<'_>,
        value: Value,
        lhs_pos: Position,
        val_pos: Position,
    ) -> (r: Result<Value, EvalAltResult>)
        requires
            rooted(old(scope)@, indexed_outcome(Ok(target))->Ok_0),
        ensures
            (outcome(r), final(scope)@) == assign_element(
                old(scope)@,
                indexed_outcome(Ok(target))->Ok_0,
                value@,
                lhs_pos,
                val_pos,
            ),
            extends(old(scope)@, final(scope)@),
            final(scope)@.len() == old(scope)@.len(),
            target.1 matches Some((id, _, _)) ==> (only_constant(final(scope)@, id@) ==> r is Err),
            target.1 is None ==> r is Err,
    {
        let (src_type, root, idx, _) = target;
        match root {
            Some((id, VariableType::Constant, _)) => Err(
                EvalAltResult::ErrorAssignmentToConstant(id.to_string(), lhs_pos),
            ),
            Some((id, VariableType::Normal, src_idx)) => {
                let r = Self::update_indexed_var_in_scope(
                    src_type,
                    scope,
                    id,
                    src_idx,
                    idx,
                    value,
                    val_pos,
                );
                proof {
                    lemma_not_only_constant(scope@, src_idx as int, id@);
                }
                r
            },
            None => Err(EvalAltResult::ErrorAssignmentToUnknownLHS(lhs_pos)),
        }
    }

    /// Evaluates the expressions of a list from left to right. The first failure ends it.
    pub fn eval_exprs(&self, scope: &mut Scope, items: &Vec<Expr>, budget: &mut u64) -> (r: Result<
        Vec<Value>,
        EvalAltResult,
    >)
        requires
            self.well_formed(),
            all_evaluable(items@),
        ensures
            kept(old(scope)@, final(scope)@, *old(budget), *final(budget)),
            all_scoped(items@) ==> final(scope)@.len() == old(scope)@.len(),
            r matches Ok(values) ==> values@.len() == items@.len(),
            self.meaning_items(items@, 0, old(scope)@, *old(budget) as nat, Seq::empty())
                matches Some((o, s, left)) ==> list_outcome(r) == o && final(scope)@ == s
                && *final(budget) == left,
        decreases *old(budget), sizes(items@), 0nat,
    {
        let ghost whole = self.meaning_items(items@, 0, scope@, *budget as nat, Seq::empty());
        let mut values: Vec<Value> = Vec::new();
        let mut i: usize = 0;
        proof {
            assert(views(values@) =~= Seq::<SpecValue>::empty());
        }
        while i < items.len()
            invariant
                i <= items.len(),
                values@.len() == i,
                self.well_formed(),
                all_evaluable(items@),
                kept(old(scope)@, scope@, *old(budget), *budget),
                all_scoped(items@) ==> scope@.len() == old(scope)@.len(),
                whole == self.meaning_items(
                    items@,
                    0,
                    old(scope)@,
                    *old(budget) as nat,
                    Seq::empty(),
                ),
                whole is Some ==> whole == self.meaning_items(
                    items@,
                    i as int,
                    scope@,
                    *budget as nat,
                    views(values@),
                ),
            decreases items.len() - i,
        {
            proof {
                lemma_item_size(items@, i as int);
            }
            let ghost done = views(values@);
            match self.eval_expr(scope, &items[i], budget) {
                Ok(value) => {
                    values.push(value);
                    proof {
                        assert(views(values@) =~= done.push(value@));
                    }
                },
                Err(error) => {
                    return Err(error);
                },
            }
            i = i + 1;
        }
        Ok(values)
    }

    /// Evaluates an index: it must be an integer.
    pub fn eval_index_value(&self, scope: &mut Scope, idx_expr: &Expr, budget: &mut u64) -> (r:
        Result<INT, EvalAltResult>)
        requires
            self.well_formed(),
            idx_expr.evaluable(),
        ensures
            kept(old(scope)@, final(scope)@, *old(budget), *final(budget)),
            idx_expr.scoped() ==> final(scope)@.len() == old(scope)@.len(),
            self.meaning_expr(idx_expr, old(scope)@, *old(budget) as nat) matches Some(
                (o, s, left),
            ) ==> final(scope)@ == s && *final(budget) == left && match o {
                Ok(value) => match r {
                    Ok(i) => index_value(value, idx_expr.position()) == Ok::<_, SpecError>(
                        i as int,
                    ),
                    Err(error) => index_value(value, idx_expr.position()) == Err::<int, _>(
                        error@,
                    ),
                },
                Err(error) => r matches Err(e) && e@ == error,
            },
        decreases *old(budget), idx_expr.size(), 2nat,
    {
        let value = self.eval_expr(scope, idx_expr, budget)?;
        as_index(value, idx_expr.position())
    }

    /// Resolves an index expression `lhs[idx_expr]`: the index is evaluated first, then the
    /// container, which is looked up in the scope where `lhs` is a variable.
    pub fn eval_index_expr<'a>(
        &self,
        scope: &mut Scope,
        lhs: &'a Expr,
        idx_expr: &Expr,
        idx_pos: Position,
        budget: &mut u64,
    ) -> (r: Result<Indexed<'a>, EvalAltResult>)
        requires
            self.well_formed(),
            lhs.evaluable(),
            idx_expr.evaluable(),
        ensures
            kept(old(scope)@, final(scope)@, *old(budget), *final(budget)),
            lhs.scoped() && idx_expr.scoped() ==> final(scope)@.len() == old(scope)@.len(),
            r is Ok ==> rooted(final(scope)@, indexed_outcome(r)->Ok_0),
            r matches Ok(target) ==> (target.1 is Some <==> lhs is Variable) && target.2
                <= i64::MAX,
            r matches Ok(target) ==> (target.1 matches Some((id, _, _)) ==> lhs.root_variable()
                == Some(id@)),
            self.meaning_index(lhs, idx_expr, idx_pos, old(scope)@, *old(budget) as nat)
                matches Some((o, s, left)) ==> indexed_outcome(r) == o && final(scope)@ == s
                && *final(budget) == left,
        decreases *old(budget), 1 + lhs.size() + idx_expr.size(), 0nat,
    {
        let idx = self.eval_index_value(scope, idx_expr, budget)?;
        match lhs {
            Expr::Variable(id, _) => {
                let (src_idx, kind, container) = Self::search_scope(
                    scope,
                    id.as_str(),
                    lhs.position(),
                )?;
                let (value, src_type) = self.get_indexed_value(
                    &container,
                    idx,
                    idx_expr.position(),
                    idx_pos,
                )?;
                Ok((src_type, Some((id.as_str(), kind, src_idx)), idx as usize, value))
            },
            _ => {
                let container = self.eval_expr(scope, lhs, budget)?;
                let (value, _) = self.get_indexed_value(
                    &container,
                    idx,
                    idx_expr.position(),
                    idx_pos,
                )?;
                Ok((IndexSourceType::Expression, None, idx as usize, value))
            },
        }
    }

    /// Evaluates an expression.
    pub fn eval_expr(&self, scope: &mut Scope, expr: &Expr, budget: &mut u64) -> (r: Result<
        Value,
        EvalAltResult,
    >)
        requires
            self.well_formed(),
            expr.evaluable(),
        ensures
            kept(old(scope)@, final(scope)@, *old(budget), *final(budget)),
            expr.scoped() ==> final(scope)@.len() == old(scope)@.len(),
            agrees(
                self.meaning_expr(expr, old(scope)@, *old(budget) as nat),
                r,
                final(scope)@,
                *final(budget),
            ),
            refused(expr, final(scope)@) ==> r is Err,
        decreases *old(budget), expr.size(), 1nat,
    {
        match expr {
            Expr::IntegerConstant(i, _) => Ok(Value::Int(*i)),
            Expr::StringConstant(s, _) => Ok(Value::Str(s.clone())),
            Expr::CharConstant(c, _) => Ok(Value::Char(*c)),
            Expr::Variable(id, pos) => match Self::search_scope(scope, id.as_str(), *pos) {
                Ok((_, _, value)) => Ok(value),
                Err(error) => Err(error),
            },
            Expr::Property(_, _) => unreached(),
            Expr::Index(lhs, idx_expr, idx_pos) => match self.eval_index_expr(
                scope,
                lhs,
                idx_expr,
                *idx_pos,
                budget,
            ) {
                Ok((_, _, _, value)) => Ok(value),
                Err(error) => Err(error),
            },
            Expr::Stmt(stmt, _) => self.eval_stmt(scope, stmt, budget),
            Expr::Assignment(_, _, _) => self.eval_assignment(scope, expr, budget),
            Expr::Dot(lhs, rhs, _) => self.get_dot_val(scope, lhs, rhs, budget),
            Expr::Array(contents, _) => match self.eval_exprs(scope, contents, budget) {
                Ok(items) => Ok(Value::Array(items)),
                Err(error) => Err(error),
            },
            Expr::FunctionCall(_, _, _, _) => self.eval_call(scope, expr, budget),
            Expr::And(_, _) => self.eval_logic(scope, expr, budget),
            Expr::Or(_, _) => self.eval_logic(scope, expr, budget),
            Expr::True(_) => Ok(Value::Bool(true)),
            Expr::False(_) => Ok(Value::Bool(false)),
            Expr::Unit(_) => Ok(Value::Unit),
        }
    }

    /// Evaluates `lhs && rhs` and `lhs || rhs`. The right operand is evaluated only where
    /// the left one does not decide.
    pub fn eval_logic(&self, scope: &mut Scope, expr: &Expr, budget: &mut u64) -> (r: Result<
        Value,
        EvalAltResult,
    >)
        requires
            self.well_formed(),
            expr.evaluable(),
            expr is And || expr is Or,
        ensures
            kept(old(scope)@, final(scope)@, *old(budget), *final(budget)),
            expr.scoped() ==> final(scope)@.len() == old(scope)@.len(),
            agrees(
                self.meaning_logic(expr, old(scope)@, *old(budget) as nat),
                r,
                final(scope)@,
                *final(budget),
            ),
        decreases *old(budget), expr.size(), 0nat,
    {
        match expr {
            Expr::And(lhs, rhs) => {
                proof {
                    lemma_size_positive(lhs);
                }
                let left = self.eval_expr(scope, lhs, budget)?;
                self.eval_logic_right(scope, true, left, lhs.position(), rhs, budget)
            },
            Expr::Or(lhs, rhs) => {
                proof {
                    lemma_size_positive(lhs);
                }
                let left = self.eval_expr(scope, lhs, budget)?;
                self.eval_logic_right(scope, false, left, lhs.position(), rhs, budget)
            },
            _ => unreached(),
        }
    }

    /// Finishes `lhs && rhs` (`conj`) or `lhs || rhs` once the left operand gave `left`.
    /// Where `left` decides, false for `&&` and true for `||`, that is the value, and the
    /// right operand is not evaluated: the scope and the budget stay as they are. Where
    /// `left` is no boolean, that is the error. Else the right operand is evaluated and
    /// gives the value.
    pub fn eval_logic_right(
        &self,
        scope: &mut Scope,
        conj: bool,
        left: Value,
        lhs_pos: Position,
        rhs: &Expr,
        budget: &mut u64,
    ) -> (r: Result<Value, EvalAltResult>)
        requires
            self.well_formed(),
            rhs.evaluable(),
        ensures
            kept(old(scope)@, final(scope)@, *old(budget), *final(budget)),
            rhs.scoped() ==> final(scope)@.len() == old(scope)@.len(),
            left@ == SpecValue::Bool(!conj) ==> outcome(r) == Ok::<_, SpecError>(
                SpecValue::Bool(!conj),
            ) && final(scope)@ == old(scope)@ && *final(budget) == *old(budget),
            !(left@ is Bool) ==> outcome(r) == Err::<SpecValue, _>(
                SpecError::BooleanArgMismatch(operator_text(conj), lhs_pos),
            ) && final(scope)@ == old(scope)@ && *final(budget) == *old(budget),
            left@ == SpecValue::Bool(conj) ==> (self.meaning_expr(
                rhs,
                old(scope)@,
                *old(budget) as nat,
            ) matches Some((o, s, l)) ==> outcome(r) == operand_outcome(
                o,
                operator_text(conj),
                rhs.position(),
            ) && final(scope)@ == s && *final(budget) == l),
        decreases *old(budget), 1 + rhs.size(), 0nat,
    {
        let operator = if conj {
            "AND"
        } else {
            "OR"
        };
        if as_bool_operand(left, operator, lhs_pos)? == conj {
            let right = self.eval_expr(scope, rhs, budget)?;
            let b = as_bool_operand(right, operator, rhs.position())?;
            Ok(Value::Bool(b))
        } else {
            Ok(Value::Bool(!conj))
        }
    }

    /// Evaluates `lhs = rhs`: the right side first, then the place it goes to.
    pub fn eval_assignment(&self, scope: &mut Scope, expr: &Expr, budget: &mut u64) -> (r: Result<
        Value,
        EvalAltResult,
    >)
        requires
            self.well_formed(),
            expr.evaluable(),
            expr is Assignment,
        ensures
            kept(old(scope)@, final(scope)@, *old(budget), *final(budget)),
            expr.scoped() ==> final(scope)@.len() == old(scope)@.len(),
            agrees(
                self.meaning_assignment(expr, old(scope)@, *old(budget) as nat),
                r,
                final(scope)@,
                *final(budget),
            ),
            refused(expr, final(scope)@) ==> r is Err,
        decreases *old(budget), expr.size(), 0nat,
    {
        match expr {
            Expr::Assignment(lhs, rhs, op_pos) => {
                let rhs_val = self.eval_expr(scope, rhs, budget)?;
                match &**lhs {
                    Expr::Variable(name, pos) => assign_to_variable(
                        scope,
                        name.as_str(),
                        rhs_val,
                        *pos,
                        *op_pos,
                    ),
                    Expr::Index(idx_lhs, idx_expr, idx_pos) => {
                        proof {
                            assert(lhs.size() == 1 + idx_lhs.size() + idx_expr.size());
                            assert(lhs.scoped() == (idx_lhs.scoped() && idx_expr.scoped()));
                        }
                        let target = self.eval_index_expr(
                            scope,
                            idx_lhs,
                            idx_expr,
                            *idx_pos,
                            budget,
                        )?;
                        Self::assign_to_element(
                            scope,
                            target,
                            rhs_val,
                            idx_lhs.position(),
                            rhs.position(),
                        )
                    },
                    Expr::Dot(dot_lhs, dot_rhs, _) => {
                        proof {
                            assert(lhs.size() == 1 + dot_lhs.size() + dot_rhs.size());
                            assert(lhs.scoped() == (dot_lhs.scoped() && dot_rhs.scoped()));
                        }
                        self.set_dot_val(
                            scope,
                            dot_lhs,
                            dot_rhs,
                            rhs_val,
                            rhs.position(),
                            *op_pos,
                            budget,
                        )
                    },
                    other => {
                        if other.is_constant() {
                            Err(
                                EvalAltResult::ErrorAssignmentToConstant(
                                    other.get_constant_str(),
                                    lhs.position(),
                                ),
                            )
                        } else {
                            Err(EvalAltResult::ErrorAssignmentToUnknownLHS(lhs.position()))
                        }
                    },
                }
            },
            _ => unreached(),
        }
    }

    /// Evaluates the statements of a block in their order. The first failure ends it. The
    /// value is that of the last statement, and unit for no statement.
    pub fn eval_stmts(&self, scope: &mut Scope, stmts: &Vec<Stmt>, budget: &mut u64) -> (r: Result<
        Value,
        EvalAltResult,
    >)
        requires
            self.well_formed(),
            all_stmts_evaluable(stmts@),
        ensures
            kept(old(scope)@, final(scope)@, *old(budget), *final(budget)),
            agrees(
                self.meaning_stmts(stmts@, 0, old(scope)@, *old(budget) as nat, SpecValue::Unit),
                r,
                final(scope)@,
                *final(budget),
            ),
        decreases *old(budget), stmt_sizes(stmts@), 0nat,
    {
        let ghost whole = self.meaning_stmts(stmts@, 0, scope@, *budget as nat, SpecValue::Unit);
        let mut result: Value = Value::Unit;
        let mut i: usize = 0;
        while i < stmts.len()
            invariant
                i <= stmts.len(),
                self.well_formed(),
                all_stmts_evaluable(stmts@),
                kept(old(scope)@, scope@, *old(budget), *budget),
                whole == self.meaning_stmts(
                    stmts@,
                    0,
                    old(scope)@,
                    *old(budget) as nat,
                    SpecValue::Unit,
                ),
                whole is Some ==> whole == self.meaning_stmts(
                    stmts@,
                    i as int,
                    scope@,
                    *budget as nat,
                    result@,
                ),
            decreases stmts.len() - i,
        {
            proof {
                lemma_stmt_size(stmts@, i as int);
            }
            match self.eval_stmt(scope, &stmts[i], budget) {
                Ok(value) => {
                    result = value;
                },
                Err(error) => {
                    return Err(error);
                },
            }
            i = i + 1;
        }
        Ok(result)
    }

    /// Evaluates a statement.
    pub fn eval_stmt(&self, scope: &mut Scope, stmt: &Stmt, budget: &mut u64) -> (r: Result<
        Value,
        EvalAltResult,
    >)
        requires
            self.well_formed(),
            stmt.evaluable(),
        ensures
            kept(old(scope)@, final(scope)@, *old(budget), *final(budget)),
            stmt.scoped() ==> final(scope)@.len() == old(scope)@.len(),
            stmt.fails_cleanly() && r is Err ==> final(scope)@.len() == old(scope)@.len(),
            agrees(
                self.meaning_stmt(stmt, old(scope)@, *old(budget) as nat),
                r,
                final(scope)@,
                *final(budget),
            ),
        decreases *old(budget), stmt.size(), 1nat,
    {
        match stmt {
            Stmt::Noop(_) => Ok(Value::Unit),
            Stmt::Expr(expr) => {
                let result = self.eval_expr(scope, expr, budget)?;
                match &**expr {
                    Expr::Assignment(_, _, _) => Ok(Value::Unit),
                    _ => Ok(result),
                }
            },
            Stmt::Block(block, _) => {
                let prev_len = scope.len();
                let result = self.eval_stmts(scope, block, budget);
                scope.rewind(prev_len);
                result
            },
            Stmt::IfElse(_, _, _) => self.eval_if(scope, stmt, budget),
            Stmt::While(guard, body) => self.eval_while(scope, guard, body, budget),
            Stmt::Loop(body) => self.eval_loop(scope, body, budget),
            Stmt::For(_, _, _) => self.eval_for(scope, stmt, budget),
            Stmt::Break(pos) => Err(EvalAltResult::ErrorLoopBreak(*pos)),
            Stmt::ReturnWithVal(_, _, _) => self.eval_return(scope, stmt, budget),
            Stmt::Let(_, _, _) => self.eval_let(scope, stmt, budget),
            Stmt::Const(_, _, _) => self.eval_let(scope, stmt, budget),
        }
    }

    /// Evaluates `if guard { body } else { other }`.
    pub fn eval_if(&self, scope: &mut Scope, stmt: &Stmt, budget: &mut u64) -> (r: Result<
        Value,
        EvalAltResult,
    >)
        requires
            self.well_formed(),
            stmt.evaluable(),
            stmt is IfElse,
        ensures
            kept(old(scope)@, final(scope)@, *old(budget), *final(budget)),
            stmt.scoped() ==> final(scope)@.len() == old(scope)@.len(),
            agrees(
                self.meaning_if(stmt, old(scope)@, *old(budget) as nat),
                r,
                final(scope)@,
                *final(budget),
            ),
        decreases *old(budget), stmt.size(), 0nat,
    {
        match stmt {
            Stmt::IfElse(guard, if_body, else_body) => {
                let value = self.eval_expr(scope, guard, budget)?;
                if as_guard(value, guard.position())? {
                    self.eval_stmt(scope, if_body, budget)
                } else {
                    match else_body {
                        Some(other) => self.eval_stmt(scope, other, budget),
                        None => Ok(Value::Unit),
                    }
                }
            },
            _ => unreached(),
        }
    }

    /// Evaluates `return` and `throw`: both end in an error, the one in the signal that the
    /// call of the function catches, the other in a runtime error.
    pub fn eval_return(&self, scope: &mut Scope, stmt: &Stmt, budget: &mut u64) -> (r: Result<
        Value,
        EvalAltResult,
    >)
        requires
            self.well_formed(),
            stmt.evaluable(),
            stmt is ReturnWithVal,
        ensures
            kept(old(scope)@, final(scope)@, *old(budget), *final(budget)),
            stmt.scoped() ==> final(scope)@.len() == old(scope)@.len(),
            r is Err,
            agrees(
                self.meaning_return(stmt, old(scope)@, *old(budget) as nat),
                r,
                final(scope)@,
                *final(budget),
            ),
        decreases *old(budget), stmt.size(), 0nat,
    {
        match stmt {
            Stmt::ReturnWithVal(value, kind, pos) => match value {
                None => match kind {
                    ReturnType::Return => Err(EvalAltResult::Return(Value::Unit, *pos)),
                    ReturnType::Exception => Err(EvalAltResult::ErrorRuntime(String::new(), *pos)),
                },
                Some(expr) => {
                    let result = self.eval_expr(scope, expr, budget)?;
                    match kind {
                        ReturnType::Return => Err(EvalAltResult::Return(result, *pos)),
                        ReturnType::Exception => Err(
                            EvalAltResult::ErrorRuntime(thrown_message(result), *pos),
                        ),
                    }
                },
            },
            _ => unreached(),
        }
    }

    /// Evaluates `let` and `const`: the value of the initializer, or unit where `let` has
    /// none, is bound as the newest variable of the scope.
    pub fn eval_let(&self, scope: &mut Scope, stmt: &Stmt, budget: &mut u64) -> (r: Result<
        Value,
        EvalAltResult,
    >)
        requires
            self.well_formed(),
            stmt.evaluable(),
            stmt is Let || stmt is Const,
        ensures
            kept(old(scope)@, final(scope)@, *old(budget), *final(budget)),
            r matches Ok(value) ==> value@ == SpecValue::Unit,
            stmt matches Stmt::Let(name, Some(init), _) ==> (init.scoped() && r is Ok ==> {
                &&& final(scope)@.len() == old(scope)@.len() + 1
                &&& final(scope)@.last().name == name@
                &&& final(scope)@.last().kind == VariableType::Normal
            }),
            stmt.fails_cleanly() && r is Err ==> final(scope)@.len() == old(scope)@.len(),
            stmt matches Stmt::Let(name, None, _) ==> r is Ok && final(scope)@ == old(scope)@.push(
                SpecBinding { name: name@, kind: VariableType::Normal, value: SpecValue::Unit },
            ),
            stmt matches Stmt::Const(name, init, _) ==> (init.scoped() && r is Ok ==> {
                &&& final(scope)@.len() == old(scope)@.len() + 1
                &&& final(scope)@.last().name == name@
                &&& final(scope)@.last().kind == VariableType::Constant
            }),
            agrees(
                self.meaning_let(stmt, old(scope)@, *old(budget) as nat),
                r,
                final(scope)@,
                *final(budget),
            ),
        decreases *old(budget), stmt.size(), 0nat,
    {
        match stmt {
            Stmt::Let(name, init, _) => match init {
                Some(expr) => {
                    let value = self.eval_expr(scope, expr, budget)?;
                    scope.push_dynamic(name.clone(), VariableType::Normal, value);
                    Ok(Value::Unit)
                },
                None => {
                    scope.push(name.clone(), Value::Unit);
                    Ok(Value::Unit)
                },
            },
            Stmt::Const(name, expr, _) => {
                proof {
                    lemma_constant_evaluable(expr);
                }
                let value = self.eval_expr(scope, expr, budget)?;
                scope.push_dynamic(name.clone(), VariableType::Constant, value);
                Ok(Value::Unit)
            },
            _ => unreached(),
        }
    }
}

} // verus!
