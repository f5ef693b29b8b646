//! What a program means: the value or error that an expression or statement ends in, the
//! scope it leaves behind, and what is left of the budget of operations.
//!
//! A native function and an iterator may say what they do; the meaning goes by what they
//! say. The functions of this file give `None` for what reaches a native function or an
//! iterator that says nothing, or `dump_ast`, and the exact outcome for everything else:
//! literals and variables, assignments, indexing, dot chains, calls, blocks, `if`, loops,
//! and every error that the evaluator itself raises.

use crate::ast::{
    lemma_item_size, lemma_size_positive, lemma_stmt_size, sizes, stmt_sizes, Expr, Position,
    ReturnType, Stmt,
};
use crate::chain::{getter_name, setter_name};
use crate::engine::{
    not_found_text, unknown_getter_text, unknown_setter_text, Engine, NativeFunction, OutputSink,
    Target, TypeIterator, KEYWORD_DEBUG, KEYWORD_DUMP_AST, KEYWORD_PRINT,
};
use crate::error::SpecError;
use crate::index::{found, updated, written_back, IndexSourceType};
use crate::scope::{lookup, with_value, SpecBinding, VariableType};
use crate::value::{type_ids, SpecValue};
use vstd::prelude::*;

verus! {

/// An outcome, the scope after it and the budget left; `None` where the host has a say.
pub type Meaning = Option<(Result<SpecValue, SpecError>, Seq<SpecBinding>, nat)>;

/// The meaning of a step of a dot chain: the outcome, the value that the chain works on as
/// the step leaves it, the scope after the step and the budget left.
pub type ChainMeaning = Option<
    (Result<SpecValue, SpecError>, SpecValue, Seq<SpecBinding>, nat),
>;

/// What a call left in the first place of its arguments: what `this` holds after a call
/// on it.
pub open spec fn first_of(args: Seq<SpecValue>) -> SpecValue {
    if args.len() > 0 {
        args[0]
    } else {
        SpecValue::Unit
    }
}

/// What the value of a native function becomes: `print` and `debug` give unit, every other
/// function gives its value, and an error passes.
pub open spec fn finished(name: Seq<char>, result: Result<SpecValue, SpecError>) -> Result<
    SpecValue,
    SpecError,
> {
    match result {
        Ok(value) => Ok(
            if name == KEYWORD_PRINT@ || name == KEYWORD_DEBUG@ {
                SpecValue::Unit
            } else {
                value
            },
        ),
        Err(error) => Err(error),
    }
}

/// What storing the copy of a root variable back does after a chain: the copy takes the
/// place of the variable's value where the chain succeeded, and nothing is written where
/// it failed. The outcome of the chain passes.
pub open spec fn stored_root(
    scope: Seq<SpecBinding>,
    src_idx: int,
    target: SpecValue,
    val: Result<SpecValue, SpecError>,
) -> (Result<SpecValue, SpecError>, Seq<SpecBinding>) {
    match val {
        Ok(_) => (val, with_value(scope, src_idx, target)),
        Err(_) => (val, scope),
    }
}

/// The budget that is handed on after a step: what the step left, and never more than
/// there was before it.
pub open spec fn at_most(left: nat, before: nat) -> nat {
    if left <= before {
        left
    } else {
        before
    }
}

/// What a call of a script function hands on from its body: a `return` becomes the value
/// of the call, everything else passes.
pub open spec fn returned(result: Result<SpecValue, SpecError>) -> Result<SpecValue, SpecError> {
    match result {
        Err(SpecError::Return(value, _)) => Ok(value),
        other => other,
    }
}

/// The scope that the body of a script function starts in: its parameters, bound to the
/// arguments of the call.
pub open spec fn call_scope(params: Seq<String>, args: Seq<SpecValue>) -> Seq<SpecBinding> {
    Seq::new(
        if params.len() <= args.len() {
            params.len()
        } else {
            args.len()
        },
        |i: int| SpecBinding { name: params[i]@, kind: VariableType::Normal, value: args[i] },
    )
}

/// What an index expression resolves to: the kind of container, the variable that holds it
/// (its name, kind and index in the scope) if it is one, the index, and the element.
pub struct SpecIndexed {
    pub source: IndexSourceType,
    pub root: Option<(Seq<char>, VariableType, int)>,
    pub index: int,
    pub value: SpecValue,
}

/// The value of a variable, or the error that names it.
pub open spec fn variable_value(scope: Seq<SpecBinding>, id: Seq<char>, pos: Position) -> Result<
    SpecValue,
    SpecError,
> {
    match lookup(scope, id) {
        Some(index) => Ok(scope[index].value),
        None => Err(SpecError::VariableNotFound(id, pos)),
    }
}

/// The operand of `&&` or `||` as a boolean, or the error that it is none.
pub open spec fn bool_operand(value: SpecValue, operator: Seq<char>, pos: Position) -> Result<
    bool,
    SpecError,
> {
    match value {
        SpecValue::Bool(b) => Ok(b),
        _ => Err(SpecError::BooleanArgMismatch(operator, pos)),
    }
}

/// The guard of an `if` or a `while` as a boolean, or the error that it is none.
pub open spec fn guard_value(value: SpecValue, pos: Position) -> Result<bool, SpecError> {
    match value {
        SpecValue::Bool(b) => Ok(b),
        _ => Err(SpecError::IfGuard(pos)),
    }
}

/// The value of an index as an integer, or the error that it is none.
pub open spec fn index_value(value: SpecValue, pos: Position) -> Result<int, SpecError> {
    match value {
        SpecValue::Int(i) => Ok(i),
        _ => Err(SpecError::IndexExpr(pos)),
    }
}

/// The message of a `throw`: the text of a string, and nothing for any other value.
pub open spec fn thrown_text(value: SpecValue) -> Seq<char> {
    match value {
        SpecValue::Str(s) => s,
        _ => Seq::empty(),
    }
}

/// What assigning `value` to the variable `name` does to the scope and ends in.
pub open spec fn assign_variable(
    scope: Seq<SpecBinding>,
    name: Seq<char>,
    value: SpecValue,
    pos: Position,
    op_pos: Position,
) -> (Result<SpecValue, SpecError>, Seq<SpecBinding>) {
    match lookup(scope, name) {
        Some(index) => match scope[index].kind {
            VariableType::Normal => (Ok(value), with_value(scope, index, value)),
            VariableType::Constant => (Err(SpecError::AssignmentToConstant(name, op_pos)), scope),
        },
        None => (Err(SpecError::VariableNotFound(name, pos)), scope),
    }
}

/// What assigning `value` to the element that an index expression resolved to does to the
/// scope and ends in.
pub open spec fn assign_element(
    scope: Seq<SpecBinding>,
    target: SpecIndexed,
    value: SpecValue,
    lhs_pos: Position,
    val_pos: Position,
) -> (Result<SpecValue, SpecError>, Seq<SpecBinding>) {
    match target.root {
        Some((id, kind, src_idx)) => match kind {
            VariableType::Constant => (Err(SpecError::AssignmentToConstant(id, lhs_pos)), scope),
            VariableType::Normal => match updated(
                scope[src_idx].value,
                target.index,
                value,
                val_pos,
            ) {
                Ok(container) => (Ok(SpecValue::Unit), with_value(scope, src_idx, container)),
                Err(error) => (Err(error), scope),
            },
        },
        None => (Err(SpecError::AssignmentToUnknownLHS(lhs_pos)), scope),
    }
}

impl<F: NativeFunction, I: TypeIterator, S: OutputSink> Engine<F, I, S> {
    /// What a call ends in, what it leaves in its arguments, and what is left of the budget.
    ///
    /// A script function costs one operation to enter and what its body spends, and works
    /// on copies of the arguments. A native function ends in what it is known to do; where
    /// nothing is known of it on these arguments, the call has no meaning here. Then come
    /// the built-in `type_of`, the error for a property that does not exist, the default
    /// value of the call, and the error that no function was found.
    pub open spec fn meaning_call(
        &self,
        name: Seq<char>,
        args: Seq<SpecValue>,
        default: Option<SpecValue>,
        pos: Position,
        budget: nat,
    ) -> Option<(Result<SpecValue, SpecError>, Seq<SpecValue>, nat)>
        decreases budget, 0nat, 0nat,
    {
        match self.spec_resolve(name, type_ids(args), default is Some) {
            Target::Script(n) => if budget == 0 {
                Some((Err(SpecError::TooManyOperations(pos)), args, budget))
            } else if n < self.scripts().len() {
                match self.meaning_stmt(
                    &self.scripts()[n as int].body,
                    call_scope(self.scripts()[n as int].params@, args),
                    (budget - 1) as nat,
                ) {
                    Some((result, _, left)) => Some((returned(result), args, left)),
                    None => None,
                }
            } else {
                None
            },
            Target::Native(i) => if i < self.native_functions().len() {
                match self.native_functions()[i as int].model(args, pos) {
                    Some((result, after)) => Some((finished(name, result), after, budget)),
                    None => None,
                }
            } else {
                None
            },
            Target::TypeOf => Some(
                (Ok(SpecValue::Str(self.pretty(args[0].raw_name()))), args, budget),
            ),
            Target::UnknownGetter => Some(
                (Err(SpecError::DotExpr(unknown_getter_text(name), pos)), args, budget),
            ),
            Target::UnknownSetter => Some(
                (Err(SpecError::DotExpr(unknown_setter_text(name), pos)), args, budget),
            ),
            Target::Default => Some((Ok(default->0), args, budget)),
            Target::NotFound => Some(
                (
                    Err(
                        SpecError::FunctionNotFound(
                            not_found_text(name, self.pretty_types(args)),
                            pos,
                        ),
                    ),
                    args,
                    budget,
                ),
            ),
        }
    }

    /// What an expression means in a scope, with a budget of operations.
    pub open spec fn meaning_expr(
        &self,
        expr: &Expr,
        scope: Seq<SpecBinding>,
        budget: nat,
    ) -> Meaning
        decreases budget, expr.size(), 1nat,
    {
        match expr {
            Expr::IntegerConstant(i, _) => Some((Ok(SpecValue::Int(*i as int)), scope, budget)),
            Expr::CharConstant(c, _) => Some((Ok(SpecValue::Char(*c)), scope, budget)),
            Expr::StringConstant(s, _) => Some((Ok(SpecValue::Str(s@)), scope, budget)),
            Expr::True(_) => Some((Ok(SpecValue::Bool(true)), scope, budget)),
            Expr::False(_) => Some((Ok(SpecValue::Bool(false)), scope, budget)),
            Expr::Unit(_) => Some((Ok(SpecValue::Unit), scope, budget)),
            Expr::Variable(id, pos) => Some((variable_value(scope, id@, *pos), scope, budget)),
            Expr::Stmt(stmt, _) => self.meaning_stmt(stmt, scope, budget),
            Expr::Index(lhs, index, idx_pos) => match self.meaning_index(
                lhs,
                index,
                *idx_pos,
                scope,
                budget,
            ) {
                Some((Ok(target), after, left)) => Some((Ok(target.value), after, left)),
                Some((Err(error), after, left)) => Some((Err(error), after, left)),
                None => None,
            },
            Expr::Dot(lhs, rhs, _) => self.meaning_get_dot(lhs, rhs, scope, budget),
            Expr::FunctionCall(_, _, _, _) => self.meaning_call_site(expr, scope, budget),
            Expr::Array(items, _) => match self.meaning_items(
                items@,
                0,
                scope,
                budget,
                Seq::empty(),
            ) {
                Some((Ok(values), after, left)) => Some(
                    (Ok(SpecValue::Array(values)), after, left),
                ),
                Some((Err(error), after, left)) => Some((Err(error), after, left)),
                None => None,
            },
            Expr::And(_, _) => self.meaning_logic(expr, scope, budget),
            Expr::Or(_, _) => self.meaning_logic(expr, scope, budget),
            Expr::Assignment(_, _, _) => self.meaning_assignment(expr, scope, budget),
            Expr::Property(_, _) => None,
        }
    }

    /// What a call `name(args)` means: the arguments are evaluated from left to right, and
    /// the function is called with their values. What `dump_ast` writes is the host's affair.
    pub open spec fn meaning_call_site(
        &self,
        expr: &Expr,
        scope: Seq<SpecBinding>,
        budget: nat,
    ) -> Meaning
        decreases budget, expr.size(), 0nat,
    {
        match expr {
            Expr::FunctionCall(name, args, default, pos) => if name@ == KEYWORD_DUMP_AST@ {
                None
            } else {
                match self.meaning_items(args@, 0, scope, budget, Seq::empty()) {
                    Some((Ok(values), after, left)) => match self.meaning_call(
                        name@,
                        values,
                        match default {
                            Some(value) => Some(value@),
                            None => None,
                        },
                        *pos,
                        at_most(left, budget),
                    ) {
                        Some((result, _, rest)) => Some((result, after, rest)),
                        None => None,
                    },
                    Some((Err(error), after, left)) => Some((Err(error), after, left)),
                    None => None,
                }
            },
            _ => None,
        }
    }

    /// What `lhs && rhs` and `lhs || rhs` mean: the right operand is evaluated only where
    /// the left one does not decide.
    pub open spec fn meaning_logic(
        &self,
        expr: &Expr,
        scope: Seq<SpecBinding>,
        budget: nat,
    ) -> Meaning
        decreases budget, expr.size(), 0nat,
    {
        match expr {
            Expr::And(lhs, rhs) => match self.meaning_expr(lhs, scope, budget) {
                Some((Ok(left), mid, b1)) => match bool_operand(left, "AND"@, lhs.position()) {
                    Ok(true) => match self.meaning_expr(rhs, mid, at_most(b1, budget)) {
                        Some((Ok(right), after, b2)) => match bool_operand(
                            right,
                            "AND"@,
                            rhs.position(),
                        ) {
                            Ok(b) => Some((Ok(SpecValue::Bool(b)), after, b2)),
                            Err(error) => Some((Err(error), after, b2)),
                        },
                        other => other,
                    },
                    Ok(false) => Some((Ok(SpecValue::Bool(false)), mid, b1)),
                    Err(error) => Some((Err(error), mid, b1)),
                },
                other => other,
            },
            Expr::Or(lhs, rhs) => match self.meaning_expr(lhs, scope, budget) {
                Some((Ok(left), mid, b1)) => match bool_operand(left, "OR"@, lhs.position()) {
                    Ok(false) => match self.meaning_expr(rhs, mid, at_most(b1, budget)) {
                        Some((Ok(right), after, b2)) => match bool_operand(
                            right,
                            "OR"@,
                            rhs.position(),
                        ) {
                            Ok(b) => Some((Ok(SpecValue::Bool(b)), after, b2)),
                            Err(error) => Some((Err(error), after, b2)),
                        },
                        other => other,
                    },
                    Ok(true) => Some((Ok(SpecValue::Bool(true)), mid, b1)),
                    Err(error) => Some((Err(error), mid, b1)),
                },
                other => other,
            },
            _ => None,
        }
    }

    /// What `lhs = rhs` means: the right side is evaluated first, then the place that the
    /// value goes to is found.
    pub open spec fn meaning_assignment(
        &self,
        expr: &Expr,
        scope: Seq<SpecBinding>,
        budget: nat,
    ) -> Meaning
        decreases budget, expr.size(), 0nat,
    {
        match expr {
            Expr::Assignment(lhs, rhs, op_pos) => match self.meaning_expr(rhs, scope, budget) {
                Some((Ok(value), mid, b1)) => match **lhs {
                    Expr::Variable(name, pos) => {
                        let (result, after) = assign_variable(mid, name@, value, pos, *op_pos);
                        Some((result, after, b1))
                    },
                    Expr::Index(base, index, idx_pos) => match ({
                        proof {
                            assert(lhs.size() == 1 + base.size() + index.size());
                        }
                        self.meaning_index(&*base, &*index, idx_pos, mid, at_most(b1, budget))
                    }) {
                        Some((Ok(target), after, b2)) => {
                            let (result, last) = assign_element(
                                after,
                                target,
                                value,
                                base.position(),
                                rhs.position(),
                            );
                            Some((result, last, b2))
                        },
                        Some((Err(error), after, b2)) => Some((Err(error), after, b2)),
                        None => None,
                    },
                    Expr::Dot(root, chain, _) => {
                        proof {
                            assert(lhs.size() == 1 + root.size() + chain.size());
                        }
                        self.meaning_set_dot(
                            &*root,
                            &*chain,
                            value,
                            rhs.position(),
                            *op_pos,
                            mid,
                            at_most(b1, budget),
                        )
                    },
                    _ => if lhs.is_constant() {
                        Some(
                            (
                                Err(
                                    SpecError::AssignmentToConstant(
                                        lhs.constant_text(),
                                        lhs.position(),
                                    ),
                                ),
                                mid,
                                b1,
                            ),
                        )
                    } else {
                        Some((Err(SpecError::AssignmentToUnknownLHS(lhs.position())), mid, b1))
                    },
                },
                other => other,
            },
            _ => None,
        }
    }

    /// What reading the property `id` of `this` ends in, what it leaves `this` as, and the
    /// budget left.
    pub open spec fn meaning_getter(
        &self,
        this: SpecValue,
        id: Seq<char>,
        pos: Position,
        budget: nat,
    ) -> Option<(Result<SpecValue, SpecError>, SpecValue, nat)>
        decreases budget, 0nat, 1nat,
    {
        match self.meaning_call(getter_name(id), seq![this], None, pos, budget) {
            Some((result, after, left)) => Some((result, first_of(after), left)),
            None => None,
        }
    }

    /// What writing `value` to the property `id` of `this` ends in, what it leaves `this`
    /// as, and the budget left.
    pub open spec fn meaning_setter(
        &self,
        this: SpecValue,
        id: Seq<char>,
        value: SpecValue,
        pos: Position,
        budget: nat,
    ) -> Option<(Result<SpecValue, SpecError>, SpecValue, nat)>
        decreases budget, 0nat, 1nat,
    {
        match self.meaning_call(setter_name(id), seq![this, value], None, pos, budget) {
            Some((result, after, left)) => Some((result, first_of(after), left)),
            None => None,
        }
    }

    /// What the method call `this.name(args)` means: the arguments are evaluated from left
    /// to right, and the function is called with `this` before them.
    pub open spec fn meaning_get_call(
        &self,
        this: SpecValue,
        call: &Expr,
        scope: Seq<SpecBinding>,
        budget: nat,
    ) -> ChainMeaning
        decreases budget, call.size(), 0nat,
    {
        match call {
            Expr::FunctionCall(name, args, default, pos) => match self.meaning_items(
                args@,
                0,
                scope,
                budget,
                Seq::empty(),
            ) {
                Some((Ok(values), after, left)) => match self.meaning_call(
                    name@,
                    seq![this] + values,
                    match default {
                        Some(value) => Some(value@),
                        None => None,
                    },
                    *pos,
                    at_most(left, budget),
                ) {
                    Some((result, handed, rest)) => Some((result, first_of(handed), after, rest)),
                    None => None,
                },
                Some((Err(error), after, left)) => Some((Err(error), this, after, left)),
                None => None,
            },
            _ => None,
        }
    }

    /// What the container of `this.lhs[..]` is on the right of a dot: `lhs` is a property of
    /// `this` or a deeper index, and any other shape is no chain.
    pub open spec fn meaning_get_base(
        &self,
        this: SpecValue,
        lhs: &Expr,
        err_pos: Position,
        scope: Seq<SpecBinding>,
        budget: nat,
    ) -> ChainMeaning
        decreases budget, lhs.size(), 2nat,
    {
        match lhs {
            Expr::Property(id, pos) => match self.meaning_getter(this, id@, *pos, budget) {
                Some((result, kept, left)) => Some((result, kept, scope, left)),
                None => None,
            },
            Expr::Index(_, _, _) => self.meaning_get_helper(this, lhs, scope, budget),
            _ => Some((Err(SpecError::DotExpr(Seq::empty(), err_pos)), this, scope, budget)),
        }
    }

    /// What the element of a container at hand is, at the index that `index` evaluates to.
    pub open spec fn meaning_element(
        &self,
        container: SpecValue,
        index: &Expr,
        idx_pos: Position,
        scope: Seq<SpecBinding>,
        budget: nat,
    ) -> Meaning
        decreases budget, index.size(), 2nat,
    {
        match self.meaning_expr(index, scope, budget) {
            Some((Ok(number), after, left)) => match index_value(number, index.position()) {
                Ok(idx) => match self.indexed(container, idx, index.position(), idx_pos) {
                    Ok((value, _)) => Some((Ok(value), after, left)),
                    Err(error) => Some((Err(error), after, left)),
                },
                Err(error) => Some((Err(error), after, left)),
            },
            other => other,
        }
    }

    /// What `this.lhs[index]` means on the right of a dot.
    pub open spec fn meaning_get_indexed(
        &self,
        this: SpecValue,
        lhs: &Expr,
        index: &Expr,
        idx_pos: Position,
        err_pos: Position,
        scope: Seq<SpecBinding>,
        budget: nat,
    ) -> ChainMeaning
        decreases budget, 1 + lhs.size() + index.size(), 0nat,
    {
        match self.meaning_get_base(this, lhs, err_pos, scope, budget) {
            Some((Ok(container), kept, mid, b1)) => match self.meaning_element(
                container,
                index,
                idx_pos,
                mid,
                at_most(b1, budget),
            ) {
                Some((result, after, left)) => Some((result, kept, after, left)),
                None => None,
            },
            other => other,
        }
    }

    /// What `this.id.rest` means: the property is read, and the rest of the chain is read of
    /// its value. What the rest of the chain does to that value is dropped.
    pub open spec fn meaning_get_property_then(
        &self,
        this: SpecValue,
        id: Seq<char>,
        pos: Position,
        rest: &Expr,
        scope: Seq<SpecBinding>,
        budget: nat,
    ) -> ChainMeaning
        decreases budget, 1 + rest.size(), 0nat,
    {
        match self.meaning_getter(this, id, pos, budget) {
            Some((Ok(value), kept, left)) => match self.meaning_get_helper(
                value,
                rest,
                scope,
                at_most(left, budget),
            ) {
                Some((result, _, after, last)) => Some((result, kept, after, last)),
                None => None,
            },
            Some((Err(error), kept, left)) => Some((Err(error), kept, scope, left)),
            None => None,
        }
    }

    /// What `this.lhs[index].rest` means: the element is read, and the rest of the chain is
    /// read of it. What the rest of the chain does to the element is dropped.
    pub open spec fn meaning_get_indexed_then(
        &self,
        this: SpecValue,
        lhs: &Expr,
        index: &Expr,
        idx_pos: Position,
        err_pos: Position,
        rest: &Expr,
        scope: Seq<SpecBinding>,
        budget: nat,
    ) -> ChainMeaning
        decreases budget, 2 + lhs.size() + index.size() + rest.size(), 0nat,
    {
        match self.meaning_get_indexed(this, lhs, index, idx_pos, err_pos, scope, budget) {
            Some((Ok(value), kept, mid, left)) => match self.meaning_get_helper(
                value,
                rest,
                mid,
                at_most(left, budget),
            ) {
                Some((result, _, after, last)) => Some((result, kept, after, last)),
                None => None,
            },
            other => other,
        }
    }

    /// What reading `this.rhs` means, and what the chain leaves `this` as.
    pub open spec fn meaning_get_helper(
        &self,
        this: SpecValue,
        rhs: &Expr,
        scope: Seq<SpecBinding>,
        budget: nat,
    ) -> ChainMeaning
        decreases budget, rhs.size(), 1nat,
    {
        match rhs {
            Expr::FunctionCall(_, _, _, _) => self.meaning_get_call(this, rhs, scope, budget),
            Expr::Property(id, pos) => match self.meaning_getter(this, id@, *pos, budget) {
                Some((result, kept, left)) => Some((result, kept, scope, left)),
                None => None,
            },
            Expr::Index(lhs, index, idx_pos) => self.meaning_get_indexed(
                this,
                lhs,
                index,
                *idx_pos,
                rhs.position(),
                scope,
                budget,
            ),
            Expr::Dot(lhs, rest, _) => match **lhs {
                Expr::Property(id, pos) => self.meaning_get_property_then(
                    this,
                    id@,
                    pos,
                    rest,
                    scope,
                    budget,
                ),
                Expr::Index(base, index, idx_pos) => {
                    proof {
                        assert(lhs.size() == 1 + base.size() + index.size());
                    }
                    self.meaning_get_indexed_then(
                        this,
                        &*base,
                        &*index,
                        idx_pos,
                        rhs.position(),
                        rest,
                        scope,
                        budget,
                    )
                },
                _ => Some(
                    (Err(SpecError::DotExpr(Seq::empty(), lhs.position())), this, scope, budget),
                ),
            },
            _ => Some(
                (Err(SpecError::DotExpr(Seq::empty(), rhs.position())), this, scope, budget),
            ),
        }
    }

    /// What storing the copy of an element back does after a chain. A root that is a
    /// constant refuses, whatever the chain ended in. For a root that is a variable the
    /// copy is written back where the chain succeeded, and nothing is written where it
    /// failed. A root that is no variable takes nothing back.
    pub open spec fn stored_element(
        &self,
        source: IndexSourceType,
        root: Option<(Seq<char>, VariableType, int)>,
        index: int,
        target: SpecValue,
        val: Result<SpecValue, SpecError>,
        scope: Seq<SpecBinding>,
        lhs_pos: Position,
        val_pos: Position,
    ) -> (Result<SpecValue, SpecError>, Seq<SpecBinding>) {
        match root {
            Some((id, kind, src_idx)) => match kind {
                VariableType::Constant => (
                    Err(SpecError::AssignmentToConstant(id, lhs_pos)),
                    scope,
                ),
                VariableType::Normal => match val {
                    Ok(value) => {
                        let (written, last) = written_back(
                            source,
                            scope,
                            self.pretty(scope[src_idx].value.raw_name()),
                            src_idx,
                            index,
                            target,
                            val_pos,
                        );
                        match written {
                            Ok(_) => (Ok(value), last),
                            Err(error) => (Err(error), last),
                        }
                    },
                    Err(error) => (Err(error), scope),
                },
            },
            None => (val, scope),
        }
    }

    /// What reading the chain `id.rhs` of a variable means. The variable is worked on in a
    /// copy, which is stored back once the chain has succeeded.
    pub open spec fn meaning_get_variable(
        &self,
        id: Seq<char>,
        pos: Position,
        rhs: &Expr,
        scope: Seq<SpecBinding>,
        budget: nat,
    ) -> Meaning
        decreases budget, rhs.size(), 2nat,
    {
        match found(scope, id, pos) {
            Ok((src_idx, _, target)) => match self.meaning_get_helper(target, rhs, scope, budget) {
                Some((val, copy, after, left)) => {
                    let (result, last) = stored_root(after, src_idx, copy, val);
                    Some((result, last, left))
                },
                None => None,
            },
            Err(error) => Some((Err(error), scope, budget)),
        }
    }

    /// What reading the chain `base[index].rhs` means. The element is worked on in a copy,
    /// which is stored back as [`Engine::stored_element`] says.
    pub open spec fn meaning_get_element(
        &self,
        base: &Expr,
        index: &Expr,
        idx_pos: Position,
        rhs: &Expr,
        scope: Seq<SpecBinding>,
        budget: nat,
    ) -> Meaning
        decreases budget, 1 + base.size() + index.size() + rhs.size(), 0nat,
    {
        match self.meaning_index(base, index, idx_pos, scope, budget) {
            Some((Ok(target), mid, b1)) => match self.meaning_get_helper(
                target.value,
                rhs,
                mid,
                at_most(b1, budget),
            ) {
                Some((val, copy, after, left)) => {
                    let (result, last) = self.stored_element(
                        target.source,
                        target.root,
                        target.index,
                        copy,
                        val,
                        after,
                        base.position(),
                        rhs.position(),
                    );
                    Some((result, last, left))
                },
                None => None,
            },
            Some((Err(error), mid, b1)) => Some((Err(error), mid, b1)),
            None => None,
        }
    }

    /// What reading the chain `lhs.rhs` means.
    pub open spec fn meaning_get_dot(
        &self,
        lhs: &Expr,
        rhs: &Expr,
        scope: Seq<SpecBinding>,
        budget: nat,
    ) -> Meaning
        decreases budget, 1 + lhs.size() + rhs.size(), 0nat,
    {
        match lhs {
            Expr::Variable(id, pos) => self.meaning_get_variable(id@, *pos, rhs, scope, budget),
            Expr::Index(base, index, idx_pos) => self.meaning_get_element(
                base,
                index,
                *idx_pos,
                rhs,
                scope,
                budget,
            ),
            _ => match self.meaning_expr(lhs, scope, budget) {
                Some((Ok(target), mid, b1)) => match self.meaning_get_helper(
                    target,
                    rhs,
                    mid,
                    at_most(b1, budget),
                ) {
                    Some((result, _, after, left)) => Some((result, after, left)),
                    None => None,
                },
                other => other,
            },
        }
    }

    /// What putting `value` into `held` at the index `idx` and setting the result back as
    /// the property `id` of `this` ends in, what it leaves `this` as, and the budget left.
    pub open spec fn meaning_put_and_set(
        &self,
        this: SpecValue,
        id: Seq<char>,
        pos: Position,
        held: SpecValue,
        idx: int,
        value: SpecValue,
        val_pos: Position,
        budget: nat,
    ) -> Option<(Result<SpecValue, SpecError>, SpecValue, nat)>
        decreases budget, 0nat, 2nat,
    {
        match updated(held, idx, value, val_pos) {
            Ok(changed) => self.meaning_setter(this, id, changed, pos, budget),
            Err(error) => Some((Err(error), this, budget)),
        }
    }

    /// What assigning `new_val` to `kept.id[index]` means once the getter gave `held` and
    /// left `kept`: the index is evaluated, and the changed container is set back.
    pub open spec fn meaning_set_at(
        &self,
        kept: SpecValue,
        id: Seq<char>,
        pos: Position,
        held: SpecValue,
        index: &Expr,
        idx_pos: Position,
        new_val: SpecValue,
        val_pos: Position,
        scope: Seq<SpecBinding>,
        budget: nat,
    ) -> ChainMeaning
        decreases budget, index.size(), 2nat,
    {
        match self.meaning_expr(index, scope, budget) {
            Some((Ok(number), after, b2)) => match index_value(number, index.position()) {
                Ok(idx) => match self.indexed(held, idx, index.position(), idx_pos) {
                    Ok(_) => match self.meaning_put_and_set(
                        kept,
                        id,
                        pos,
                        held,
                        idx,
                        new_val,
                        val_pos,
                        at_most(b2, budget),
                    ) {
                        Some((result, last, left)) => Some((result, last, after, left)),
                        None => None,
                    },
                    Err(error) => Some((Err(error), kept, after, b2)),
                },
                Err(error) => Some((Err(error), kept, after, b2)),
            },
            Some((Err(error), after, b2)) => Some((Err(error), kept, after, b2)),
            None => None,
        }
    }

    /// What assigning `new_val` to `this.id[index]` means: the container is read through
    /// the getter, changed, and set back through the setter.
    pub open spec fn meaning_set_indexed(
        &self,
        this: SpecValue,
        id: Seq<char>,
        pos: Position,
        index: &Expr,
        idx_pos: Position,
        new_val: SpecValue,
        val_pos: Position,
        scope: Seq<SpecBinding>,
        budget: nat,
    ) -> ChainMeaning
        decreases budget, index.size(), 3nat,
    {
        match self.meaning_getter(this, id, pos, budget) {
            Some((Ok(held), kept, b1)) => self.meaning_set_at(
                kept,
                id,
                pos,
                held,
                index,
                idx_pos,
                new_val,
                val_pos,
                scope,
                at_most(b1, budget),
            ),
            Some((Err(error), kept, b1)) => Some((Err(error), kept, scope, b1)),
            None => None,
        }
    }

    /// What assigning `new_val` to `this.id.rest` means: the property is read, the rest of
    /// the chain is assigned to in its value, and the value is set back.
    pub open spec fn meaning_set_property_then(
        &self,
        this: SpecValue,
        id: Seq<char>,
        pos: Position,
        rest: &Expr,
        new_val: SpecValue,
        val_pos: Position,
        scope: Seq<SpecBinding>,
        budget: nat,
    ) -> ChainMeaning
        decreases budget, 1 + rest.size(), 0nat,
    {
        match self.meaning_getter(this, id, pos, budget) {
            Some((Ok(held), kept, b1)) => match self.meaning_set_helper(
                held,
                rest,
                new_val,
                val_pos,
                scope,
                at_most(b1, budget),
            ) {
                Some((Ok(_), changed, after, b2)) => match self.meaning_setter(
                    kept,
                    id,
                    changed,
                    pos,
                    at_most(b2, budget),
                ) {
                    Some((result, last, left)) => Some((result, last, after, left)),
                    None => None,
                },
                Some((Err(error), _, after, b2)) => Some((Err(error), kept, after, b2)),
                None => None,
            },
            Some((Err(error), kept, b1)) => Some((Err(error), kept, scope, b1)),
            None => None,
        }
    }

    /// What assigning `new_val` to the rest of a chain in the element `target` of `held`
    /// means, where `held` is the property `id` of `this`: the rest of the chain works on
    /// the element, which is put back into `held`, which is set back.
    pub open spec fn meaning_set_in_element(
        &self,
        this: SpecValue,
        id: Seq<char>,
        pos: Position,
        held: SpecValue,
        idx: int,
        target: SpecValue,
        rest: &Expr,
        new_val: SpecValue,
        val_pos: Position,
        scope: Seq<SpecBinding>,
        budget: nat,
    ) -> ChainMeaning
        decreases budget, rest.size(), 5nat,
    {
        match self.meaning_set_helper(target, rest, new_val, val_pos, scope, budget) {
            Some((Ok(_), changed, after, left)) => match self.meaning_put_and_set(
                this,
                id,
                pos,
                held,
                idx,
                changed,
                val_pos,
                at_most(left, budget),
            ) {
                Some((result, last, rest_left)) => Some((result, last, after, rest_left)),
                None => None,
            },
            Some((Err(error), _, after, left)) => Some((Err(error), this, after, left)),
            None => None,
        }
    }

    /// What assigning `new_val` to `kept.id[index].rest` means once the getter gave `held`
    /// and left `kept`: the element is read, the rest of the chain works on it, and it is
    /// put back into the container, which is set back.
    pub open spec fn meaning_set_through_at(
        &self,
        kept: SpecValue,
        id: Seq<char>,
        pos: Position,
        held: SpecValue,
        index: &Expr,
        idx_pos: Position,
        rest: &Expr,
        new_val: SpecValue,
        val_pos: Position,
        scope: Seq<SpecBinding>,
        budget: nat,
    ) -> ChainMeaning
        decreases budget, 1 + index.size() + rest.size(), 0nat,
    {
        match self.meaning_expr(index, scope, budget) {
            Some((Ok(number), mid, b2)) => match index_value(number, index.position()) {
                Ok(idx) => match self.indexed(held, idx, index.position(), idx_pos) {
                    Ok((target, _)) => self.meaning_set_in_element(
                        kept,
                        id,
                        pos,
                        held,
                        idx,
                        target,
                        rest,
                        new_val,
                        val_pos,
                        mid,
                        at_most(b2, budget),
                    ),
                    Err(error) => Some((Err(error), kept, mid, b2)),
                },
                Err(error) => Some((Err(error), kept, mid, b2)),
            },
            Some((Err(error), mid, b2)) => Some((Err(error), kept, mid, b2)),
            None => None,
        }
    }

    /// What assigning `new_val` to `this.id[index].rest` means.
    pub open spec fn meaning_set_through(
        &self,
        this: SpecValue,
        id: Seq<char>,
        pos: Position,
        index: &Expr,
        idx_pos: Position,
        rest: &Expr,
        new_val: SpecValue,
        val_pos: Position,
        scope: Seq<SpecBinding>,
        budget: nat,
    ) -> ChainMeaning
        decreases budget, 1 + index.size() + rest.size(), 1nat,
    {
        match self.meaning_getter(this, id, pos, budget) {
            Some((Ok(held), kept, b1)) => self.meaning_set_through_at(
                kept,
                id,
                pos,
                held,
                index,
                idx_pos,
                rest,
                new_val,
                val_pos,
                scope,
                at_most(b1, budget),
            ),
            Some((Err(error), kept, b1)) => Some((Err(error), kept, scope, b1)),
            None => None,
        }
    }

    /// What assigning `new_val` to `this.rhs` means, and what the chain leaves `this` as.
    pub open spec fn meaning_set_helper(
        &self,
        this: SpecValue,
        rhs: &Expr,
        new_val: SpecValue,
        val_pos: Position,
        scope: Seq<SpecBinding>,
        budget: nat,
    ) -> ChainMeaning
        decreases budget, rhs.size(), 4nat,
    {
        match rhs {
            Expr::Property(id, pos) => match self.meaning_setter(
                this,
                id@,
                new_val,
                *pos,
                budget,
            ) {
                Some((result, kept, left)) => Some((result, kept, scope, left)),
                None => None,
            },
            Expr::Index(lhs, index, idx_pos) => match **lhs {
                Expr::Property(id, pos) => self.meaning_set_indexed(
                    this,
                    id@,
                    pos,
                    index,
                    *idx_pos,
                    new_val,
                    val_pos,
                    scope,
                    budget,
                ),
                _ => Some(
                    (Err(SpecError::DotExpr("for assignment"@, *idx_pos)), this, scope, budget),
                ),
            },
            Expr::Dot(lhs, rest, _) => match **lhs {
                Expr::Property(id, pos) => self.meaning_set_property_then(
                    this,
                    id@,
                    pos,
                    rest,
                    new_val,
                    val_pos,
                    scope,
                    budget,
                ),
                Expr::Index(base, index, idx_pos) => match *base {
                    Expr::Property(id, pos) => {
                        proof {
                            assert(lhs.size() == 1 + base.size() + index.size());
                        }
                        self.meaning_set_through(
                            this,
                            id@,
                            pos,
                            &*index,
                            idx_pos,
                            rest,
                            new_val,
                            val_pos,
                            scope,
                            budget,
                        )
                    },
                    _ => Some(
                        (Err(SpecError::DotExpr("for assignment"@, idx_pos)), this, scope, budget),
                    ),
                },
                _ => Some(
                    (
                        Err(SpecError::DotExpr("for assignment"@, lhs.position())),
                        this,
                        scope,
                        budget,
                    ),
                ),
            },
            _ => Some(
                (Err(SpecError::DotExpr("for assignment"@, rhs.position())), this, scope, budget),
            ),
        }
    }

    /// What assigning `new_val` to the chain `id.rhs` of a variable means. A constant
    /// refuses it; a variable is worked on in a copy, which is stored back once the chain
    /// has succeeded.
    pub open spec fn meaning_set_variable(
        &self,
        id: Seq<char>,
        pos: Position,
        rhs: &Expr,
        new_val: SpecValue,
        val_pos: Position,
        op_pos: Position,
        scope: Seq<SpecBinding>,
        budget: nat,
    ) -> Meaning
        decreases budget, rhs.size(), 5nat,
    {
        match found(scope, id, pos) {
            Ok((src_idx, kind, target)) => match kind {
                VariableType::Constant => Some(
                    (Err(SpecError::AssignmentToConstant(id, op_pos)), scope, budget),
                ),
                VariableType::Normal => match self.meaning_set_helper(
                    target,
                    rhs,
                    new_val,
                    val_pos,
                    scope,
                    budget,
                ) {
                    Some((val, copy, after, left)) => {
                        let (result, last) = stored_root(after, src_idx, copy, val);
                        Some((result, last, left))
                    },
                    None => None,
                },
            },
            Err(error) => Some((Err(error), scope, budget)),
        }
    }

    /// What assigning `new_val` to the chain `base[index].rhs` means. The element is worked
    /// on in a copy, which is stored back as [`Engine::stored_element`] says.
    pub open spec fn meaning_set_element(
        &self,
        base: &Expr,
        index: &Expr,
        idx_pos: Position,
        rhs: &Expr,
        new_val: SpecValue,
        val_pos: Position,
        scope: Seq<SpecBinding>,
        budget: nat,
    ) -> Meaning
        decreases budget, 1 + base.size() + index.size() + rhs.size(), 5nat,
    {
        match self.meaning_index(base, index, idx_pos, scope, budget) {
            Some((Ok(target), mid, b1)) => match self.meaning_set_helper(
                target.value,
                rhs,
                new_val,
                val_pos,
                mid,
                at_most(b1, budget),
            ) {
                Some((val, copy, after, left)) => {
                    let (result, last) = self.stored_element(
                        target.source,
                        target.root,
                        target.index,
                        copy,
                        val,
                        after,
                        base.position(),
                        val_pos,
                    );
                    Some((result, last, left))
                },
                None => None,
            },
            Some((Err(error), mid, b1)) => Some((Err(error), mid, b1)),
            None => None,
        }
    }

    /// What assigning `new_val` to the chain `lhs.rhs` means. The root must be a variable
    /// that is no constant, or an element of one.
    pub open spec fn meaning_set_dot(
        &self,
        lhs: &Expr,
        rhs: &Expr,
        new_val: SpecValue,
        val_pos: Position,
        op_pos: Position,
        scope: Seq<SpecBinding>,
        budget: nat,
    ) -> Meaning
        decreases budget, 1 + lhs.size() + rhs.size(), 6nat,
    {
        match lhs {
            Expr::Variable(id, pos) => self.meaning_set_variable(
                id@,
                *pos,
                rhs,
                new_val,
                val_pos,
                op_pos,
                scope,
                budget,
            ),
            Expr::Index(base, index, idx_pos) => self.meaning_set_element(
                base,
                index,
                *idx_pos,
                rhs,
                new_val,
                val_pos,
                scope,
                budget,
            ),
            _ => Some((Err(SpecError::AssignmentToUnknownLHS(lhs.position())), scope, budget)),
        }
    }

    /// What the items of a list mean from the `from`-th on, evaluated left to right after
    /// the values `done`: all their values, or the first error.
    pub open spec fn meaning_items(
        &self,
        items: Seq<Expr>,
        from: int,
        scope: Seq<SpecBinding>,
        budget: nat,
        done: Seq<SpecValue>,
    ) -> Option<(Result<Seq<SpecValue>, SpecError>, Seq<SpecBinding>, nat)>
        decreases budget, sizes(items), items.len() - from,
    {
        if from < 0 || from >= items.len() {
            Some((Ok(done), scope, budget))
        } else {
            proof {
                lemma_item_size(items, from);
            }
            match self.meaning_expr(&items[from], scope, budget) {
                Some((Ok(value), after, left)) => self.meaning_items(
                    items,
                    from + 1,
                    after,
                    at_most(left, budget),
                    done.push(value),
                ),
                Some((Err(error), after, left)) => Some((Err(error), after, left)),
                None => None,
            }
        }
    }

    /// What an index expression `lhs[index]` resolves to in a scope: the index is evaluated
    /// first, then the container.
    pub open spec fn meaning_index(
        &self,
        lhs: &Expr,
        index: &Expr,
        idx_pos: Position,
        scope: Seq<SpecBinding>,
        budget: nat,
    ) -> Option<(Result<SpecIndexed, SpecError>, Seq<SpecBinding>, nat)>
        decreases budget, 1 + lhs.size() + index.size(), 0nat,
    {
        match self.meaning_expr(index, scope, budget) {
            Some((Ok(number), mid, b1)) => match index_value(number, index.position()) {
                Ok(idx) => match lhs {
                    Expr::Variable(id, _) => match found(mid, id@, lhs.position()) {
                        Ok((src_idx, kind, container)) => match self.indexed(
                            container,
                            idx,
                            index.position(),
                            idx_pos,
                        ) {
                            Ok((value, source)) => Some(
                                (
                                    Ok(
                                        SpecIndexed {
                                            source,
                                            root: Some((id@, kind, src_idx)),
                                            index: idx,
                                            value,
                                        },
                                    ),
                                    mid,
                                    b1,
                                ),
                            ),
                            Err(error) => Some((Err(error), mid, b1)),
                        },
                        Err(error) => Some((Err(error), mid, b1)),
                    },
                    _ => match self.meaning_expr(lhs, mid, at_most(b1, budget)) {
                        Some((Ok(container), after, b2)) => match self.indexed(
                            container,
                            idx,
                            index.position(),
                            idx_pos,
                        ) {
                            Ok((value, _)) => Some(
                                (
                                    Ok(
                                        SpecIndexed {
                                            source: IndexSourceType::Expression,
                                            root: None,
                                            index: idx,
                                            value,
                                        },
                                    ),
                                    after,
                                    b2,
                                ),
                            ),
                            Err(error) => Some((Err(error), after, b2)),
                        },
                        Some((Err(error), after, b2)) => Some((Err(error), after, b2)),
                        None => None,
                    },
                },
                Err(error) => Some((Err(error), mid, b1)),
            },
            Some((Err(error), mid, b1)) => Some((Err(error), mid, b1)),
            None => None,
        }
    }

    /// What a statement means in a scope, with a budget of operations.
    pub open spec fn meaning_stmt(
        &self,
        stmt: &Stmt,
        scope: Seq<SpecBinding>,
        budget: nat,
    ) -> Meaning
        decreases budget, stmt.size(), 1nat,
    {
        match stmt {
            Stmt::Noop(_) => Some((Ok(SpecValue::Unit), scope, budget)),
            Stmt::Expr(expr) => match self.meaning_expr(expr, scope, budget) {
                Some((Ok(value), after, left)) => Some(
                    (
                        Ok(
                            if **expr is Assignment {
                                SpecValue::Unit
                            } else {
                                value
                            },
                        ),
                        after,
                        left,
                    ),
                ),
                other => other,
            },
            Stmt::Block(stmts, _) => match self.meaning_stmts(
                stmts@,
                0,
                scope,
                budget,
                SpecValue::Unit,
            ) {
                Some((result, after, left)) => Some(
                    (result, after.subrange(0, scope.len() as int), left),
                ),
                None => None,
            },
            Stmt::IfElse(_, _, _) => self.meaning_if(stmt, scope, budget),
            Stmt::While(guard, body) => self.meaning_while(guard, body, scope, budget),
            Stmt::Loop(body) => self.meaning_loop(body, scope, budget),
            Stmt::For(_, _, _) => self.meaning_for(stmt, scope, budget),
            Stmt::Break(pos) => Some((Err(SpecError::LoopBreak(*pos)), scope, budget)),
            Stmt::ReturnWithVal(_, _, _) => self.meaning_return(stmt, scope, budget),
            Stmt::Let(_, _, _) => self.meaning_let(stmt, scope, budget),
            Stmt::Const(_, _, _) => self.meaning_let(stmt, scope, budget),
        }
    }

    /// What `if guard { body } else { other }` means.
    pub open spec fn meaning_if(&self, stmt: &Stmt, scope: Seq<SpecBinding>, budget: nat) -> Meaning
        decreases budget, stmt.size(), 0nat,
    {
        match stmt {
            Stmt::IfElse(guard, body, other) => match self.meaning_expr(guard, scope, budget) {
                Some((Ok(value), mid, b1)) => match guard_value(value, guard.position()) {
                    Ok(true) => self.meaning_stmt(body, mid, at_most(b1, budget)),
                    Ok(false) => match other {
                        Some(stmt) => self.meaning_stmt(stmt, mid, at_most(b1, budget)),
                        None => Some((Ok(SpecValue::Unit), mid, b1)),
                    },
                    Err(error) => Some((Err(error), mid, b1)),
                },
                other => other,
            },
            _ => None,
        }
    }

    /// What `for name in expr { body }` means: the value of `expr` is walked over by the
    /// iterator of its type, and the body runs once for each item, with `name` bound to it.
    /// A value whose type has no iterator is an error. Where the iterator does not say
    /// what it gives, the statement has no meaning here.
    pub open spec fn meaning_for(
        &self,
        stmt: &Stmt,
        scope: Seq<SpecBinding>,
        budget: nat,
    ) -> Meaning
        decreases budget, stmt.size(), 0nat,
    {
        match stmt {
            Stmt::For(name, expr, body) => match self.meaning_expr(expr, scope, budget) {
                Some((Ok(value), after, left)) => if self.iterator_types().contains(
                    value.type_id(),
                ) {
                    match self.walked(value) {
                        Some(items) => {
                            proof {
                                lemma_size_positive(expr);
                            }
                            self.meaning_for_items(
                                items,
                                0,
                                after.len() as int,
                                body,
                                after.push(
                                    SpecBinding {
                                        name: name@,
                                        kind: VariableType::Normal,
                                        value: SpecValue::Unit,
                                    },
                                ),
                                at_most(left, budget),
                            )
                        },
                        None => None,
                    }
                } else {
                    Some((Err(SpecError::For(expr.position())), after, left))
                },
                other => other,
            },
            _ => None,
        }
    }

    /// What a `for` loop means once the items that it walks over are at hand: `from` is the
    /// item that comes next, and the loop variable is the binding at `idx`. Each iteration
    /// costs one operation and gives the variable the next item; a `break` in the body ends
    /// the loop with unit; and the newest binding is taken off the scope on every way out.
    pub open spec fn meaning_for_items(
        &self,
        items: Seq<SpecValue>,
        from: int,
        idx: int,
        body: &Stmt,
        scope: Seq<SpecBinding>,
        budget: nat,
    ) -> Meaning
        decreases budget, 1 + body.size(), 0nat,
    {
        if from < 0 || from >= items.len() {
            Some((Ok(SpecValue::Unit), scope.drop_last(), budget))
        } else if budget == 0 {
            Some((Err(SpecError::TooManyOperations(body.position())), scope.drop_last(), budget))
        } else {
            match self.meaning_stmt(
                body,
                with_value(scope, idx, items[from]),
                (budget - 1) as nat,
            ) {
                Some((Ok(_), after, left)) => self.meaning_for_items(
                    items,
                    from + 1,
                    idx,
                    body,
                    after,
                    at_most(left, (budget - 1) as nat),
                ),
                Some((Err(SpecError::LoopBreak(_)), after, left)) => Some(
                    (Ok(SpecValue::Unit), after.drop_last(), left),
                ),
                Some((Err(error), after, left)) => Some((Err(error), after.drop_last(), left)),
                None => None,
            }
        }
    }

    /// What `return` and `throw` mean: the signal of `return` with the value, or a runtime
    /// error with the value as its message.
    pub open spec fn meaning_return(
        &self,
        stmt: &Stmt,
        scope: Seq<SpecBinding>,
        budget: nat,
    ) -> Meaning
        decreases budget, stmt.size(), 0nat,
    {
        match stmt {
            Stmt::ReturnWithVal(value, kind, pos) => match value {
                None => match kind {
                    ReturnType::Return => Some(
                        (Err(SpecError::Return(SpecValue::Unit, *pos)), scope, budget),
                    ),
                    ReturnType::Exception => Some(
                        (Err(SpecError::Runtime(Seq::empty(), *pos)), scope, budget),
                    ),
                },
                Some(expr) => match self.meaning_expr(expr, scope, budget) {
                    Some((Ok(result), after, left)) => match kind {
                        ReturnType::Return => Some(
                            (Err(SpecError::Return(result, *pos)), after, left),
                        ),
                        ReturnType::Exception => Some(
                            (Err(SpecError::Runtime(thrown_text(result), *pos)), after, left),
                        ),
                    },
                    other => other,
                },
            },
            _ => None,
        }
    }

    /// What `let` and `const` mean: the value of the initializer, or unit where `let` has
    /// none, is bound as the newest variable of the scope.
    pub open spec fn meaning_let(
        &self,
        stmt: &Stmt,
        scope: Seq<SpecBinding>,
        budget: nat,
    ) -> Meaning
        decreases budget, stmt.size(), 0nat,
    {
        match stmt {
            Stmt::Let(name, init, _) => match init {
                Some(expr) => match self.meaning_expr(expr, scope, budget) {
                    Some((Ok(value), after, left)) => Some(
                        (
                            Ok(SpecValue::Unit),
                            after.push(
                                SpecBinding { name: name@, kind: VariableType::Normal, value },
                            ),
                            left,
                        ),
                    ),
                    other => other,
                },
                None => Some(
                    (
                        Ok(SpecValue::Unit),
                        scope.push(
                            SpecBinding {
                                name: name@,
                                kind: VariableType::Normal,
                                value: SpecValue::Unit,
                            },
                        ),
                        budget,
                    ),
                ),
            },
            Stmt::Const(name, init, _) => match self.meaning_expr(init, scope, budget) {
                Some((Ok(value), after, left)) => Some(
                    (
                        Ok(SpecValue::Unit),
                        after.push(
                            SpecBinding { name: name@, kind: VariableType::Constant, value },
                        ),
                        left,
                    ),
                ),
                other => other,
            },
            _ => None,
        }
    }

    /// What the statements of a block mean from the `from`-th on, where `last` is the value
    /// of the statement before: the value of the last statement, or the first error.
    pub open spec fn meaning_stmts(
        &self,
        stmts: Seq<Stmt>,
        from: int,
        scope: Seq<SpecBinding>,
        budget: nat,
        last: SpecValue,
    ) -> Meaning
        decreases budget, stmt_sizes(stmts), stmts.len() - from,
    {
        if from < 0 || from >= stmts.len() {
            Some((Ok(last), scope, budget))
        } else {
            proof {
                lemma_stmt_size(stmts, from);
            }
            match self.meaning_stmt(&stmts[from], scope, budget) {
                Some((Ok(value), after, left)) => self.meaning_stmts(
                    stmts,
                    from + 1,
                    after,
                    at_most(left, budget),
                    value,
                ),
                other => other,
            }
        }
    }

    /// What `while guard { body }` means: each iteration costs one operation, a guard that
    /// is false or a `break` in the body ends the loop with unit.
    pub open spec fn meaning_while(
        &self,
        guard: &Expr,
        body: &Stmt,
        scope: Seq<SpecBinding>,
        budget: nat,
    ) -> Meaning
        decreases budget, 1 + guard.size() + body.size(), 0nat,
    {
        if budget == 0 {
            Some((Err(SpecError::TooManyOperations(guard.position())), scope, budget))
        } else {
            match self.meaning_expr(guard, scope, (budget - 1) as nat) {
                Some((Ok(value), mid, b1)) => match guard_value(value, guard.position()) {
                    Ok(true) => match self.meaning_stmt(
                        body,
                        mid,
                        at_most(b1, (budget - 1) as nat),
                    ) {
                        Some((Ok(_), after, b2)) => self.meaning_while(
                            guard,
                            body,
                            after,
                            at_most(b2, (budget - 1) as nat),
                        ),
                        Some((Err(SpecError::LoopBreak(_)), after, b2)) => Some(
                            (Ok(SpecValue::Unit), after, b2),
                        ),
                        other => other,
                    },
                    Ok(false) => Some((Ok(SpecValue::Unit), mid, b1)),
                    Err(error) => Some((Err(error), mid, b1)),
                },
                other => other,
            }
        }
    }

    /// What `loop { body }` means: each iteration costs one operation, and a `break` in the
    /// body ends the loop with unit.
    pub open spec fn meaning_loop(
        &self,
        body: &Stmt,
        scope: Seq<SpecBinding>,
        budget: nat,
    ) -> Meaning
        decreases budget, 1 + body.size(), 0nat,
    {
        if budget == 0 {
            Some((Err(SpecError::TooManyOperations(body.position())), scope, budget))
        } else {
            match self.meaning_stmt(body, scope, (budget - 1) as nat) {
                Some((Ok(_), after, b1)) => self.meaning_loop(
                    body,
                    after,
                    at_most(b1, (budget - 1) as nat),
                ),
                Some((Err(SpecError::LoopBreak(_)), after, b1)) => Some(
                    (Ok(SpecValue::Unit), after, b1),
                ),
                other => other,
            }
        }
    }
}

} // verus!
