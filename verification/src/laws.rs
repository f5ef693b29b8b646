//! Laws of the language: what holds of every program, stated over the meaning of
//! expressions and statements and over the scope, and proved.

use crate::ast::{lemma_item_size, lemma_size_positive, lemma_stmt_size, Expr, Position, Stmt};
use crate::chain::{getter_name, setter_name};
use crate::engine::{
    native_index, Engine, NativeFunction, OutputSink, Target, TypeIterator, KEYWORD_DEBUG,
    KEYWORD_DUMP_AST, KEYWORD_PRINT, KEYWORD_TYPE_OF,
};
use crate::error::SpecError;
use crate::eval::{operand_outcome, operator_text, rooted};
use crate::index::{element_at, found, updated};
use crate::meaning::{
    assign_element, at_most, call_scope, finished, first_of, guard_value, index_value, SpecIndexed,
};
use crate::registry::{call_key, script_index};
use crate::scope::{
    extends, lemma_lookup, lookup, only_constant, with_value, SpecBinding, VariableType,
};
use crate::value::{type_ids, SpecValue};
use vstd::prelude::*;
use vstd::string::*;

verus! {

/// A binding that was just pushed is the one that its name finds.
pub proof fn law_push_then_lookup(scope: Seq<SpecBinding>, binding: SpecBinding)
    ensures
        lookup(scope.push(binding), binding.name) == Some(scope.len() as int),
{
    assert(scope.push(binding).last() == binding);
}

/// A binding that was pushed under another name changes nothing for this name.
pub proof fn law_push_other_name(scope: Seq<SpecBinding>, binding: SpecBinding, name: Seq<char>)
    requires
        binding.name != name,
    ensures
        lookup(scope.push(binding), name) == lookup(scope, name),
{
    assert(scope.push(binding).last() == binding);
    assert(scope.push(binding).drop_last() =~= scope);
}

/// Cutting a scope back to the length it had before a push undoes the push.
pub proof fn law_rewind_undoes_push(scope: Seq<SpecBinding>, binding: SpecBinding)
    ensures
        scope.push(binding).subrange(0, scope.len() as int) == scope,
{
    assert(scope.push(binding).subrange(0, scope.len() as int) =~= scope);
}

/// What a name finds depends on the names of the bindings alone: two scopes with the same
/// names in the same places find the same index.
pub proof fn law_lookup_by_names(a: Seq<SpecBinding>, b: Seq<SpecBinding>, name: Seq<char>)
    requires
        a.len() == b.len(),
        forall|i: int| 0 <= i < a.len() ==> (#[trigger] a[i]).name == b[i].name,
    ensures
        lookup(a, name) == lookup(b, name),
    decreases a.len(),
{
    if a.len() > 0 {
        assert(a.last().name == b.last().name);
        if a.last().name != name {
            assert forall|i: int| 0 <= i < a.drop_last().len() implies (
            #[trigger] a.drop_last()[i]).name == b.drop_last()[i].name by {
                assert(a[i].name == b[i].name);
            }
            law_lookup_by_names(a.drop_last(), b.drop_last(), name);
        }
    }
}

/// Writing an element back that was just read leaves the container as it was.
pub proof fn law_update_with_same_element(container: SpecValue, index: int, pos: Position)
    requires
        element_at(container, index) is Some,
    ensures
        updated(container, index, element_at(container, index)->0, pos) == Ok::<_, SpecError>(
            container,
        ),
{
    match container {
        SpecValue::Array(items) => {
            assert(items.update(index, items[index]) =~= items);
        },
        SpecValue::Str(s) => {
            assert(s.update(index, s[index]) =~= s);
        },
        _ => {},
    }
}

/// Assigning to an element of a variable the value that the element holds leaves the
/// scope as it was.
pub proof fn law_assign_same_element(
    scope: Seq<SpecBinding>,
    target: SpecIndexed,
    lhs_pos: Position,
    val_pos: Position,
)
    requires
        rooted(scope, target),
        target.root matches Some((_, kind, _)) && kind == VariableType::Normal,
    ensures
        assign_element(scope, target, target.value, lhs_pos, val_pos) == (
            Ok::<_, SpecError>(SpecValue::Unit),
            scope,
        ),
{
    let root = target.root->0;
    let src_idx = root.2;
    law_update_with_same_element(scope[src_idx].value, target.index, val_pos);
    assert(with_value(scope, src_idx, scope[src_idx].value) =~= scope);
}

impl<F: NativeFunction, I: TypeIterator, S: OutputSink> Engine<F, I, S> {
    /// Whatever an expression means, it leaves the bindings that were there in place, under
    /// their names and of their kinds, and does not add to the budget.
    pub proof fn law_expr_keeps(&self, expr: &Expr, scope: Seq<SpecBinding>, budget: nat)
        ensures
            self.meaning_expr(expr, scope, budget) matches Some(
                (_, after, left),
            ) ==> extends(scope, after) && left <= budget,
        decreases budget, expr.size(), 1nat,
    {
        match expr {
            Expr::Stmt(stmt, _) => {
                self.law_stmt_keeps(stmt, scope, budget);
            },
            Expr::Index(lhs, index, idx_pos) => {
                self.keeps_index(lhs, index, *idx_pos, scope, budget);
            },
            Expr::Dot(lhs, rhs, _) => {
                self.keeps_get_dot(lhs, rhs, scope, budget);
            },
            Expr::FunctionCall(_, _, _, _) => {
                self.keeps_call_site(expr, scope, budget);
            },
            Expr::Array(items, _) => {
                self.keeps_items(items@, 0, scope, budget, Seq::empty());
            },
            Expr::And(_, _) => {
                self.keeps_logic(expr, scope, budget);
            },
            Expr::Or(_, _) => {
                self.keeps_logic(expr, scope, budget);
            },
            Expr::Assignment(_, _, _) => {
                self.keeps_assignment(expr, scope, budget);
            },
            _ => {},
        }
    }

    proof fn keeps_call(
        &self,
        name: Seq<char>,
        args: Seq<SpecValue>,
        default: Option<SpecValue>,
        pos: Position,
        budget: nat,
    )
        ensures
            self.meaning_call(
                name,
                args,
                default,
                pos,
                budget,
            ) matches Some((_, _, left)) ==> left <= budget,
        decreases budget, 0nat, 0nat,
    {
        match self.spec_resolve(name, type_ids(args), default is Some) {
            Target::Script(n) => {
                if budget > 0 && n < self.scripts().len() {
                    self.law_stmt_keeps(
                        &self.scripts()[n as int].body,
                        call_scope(self.scripts()[n as int].params@, args),
                        (budget - 1) as nat,
                    );
                }
            },
            _ => {},
        }
    }

    proof fn keeps_getter(&self, this: SpecValue, id: Seq<char>, pos: Position, budget: nat)
        ensures
            self.meaning_getter(this, id, pos, budget) matches Some((_, _, left)) ==> left <= budget,
        decreases budget, 0nat, 1nat,
    {
        self.keeps_call(getter_name(id), seq![this], None, pos, budget);
    }

    proof fn keeps_setter(
        &self,
        this: SpecValue,
        id: Seq<char>,
        value: SpecValue,
        pos: Position,
        budget: nat,
    )
        ensures
            self.meaning_setter(
                this,
                id,
                value,
                pos,
                budget,
            ) matches Some((_, _, left)) ==> left <= budget,
        decreases budget, 0nat, 1nat,
    {
        self.keeps_call(setter_name(id), seq![this, value], None, pos, budget);
    }

    proof fn keeps_put_and_set(
        &self,
        this: SpecValue,
        id: Seq<char>,
        pos: Position,
        held: SpecValue,
        idx: int,
        value: SpecValue,
        val_pos: Position,
        budget: nat,
    )
        ensures
            self.meaning_put_and_set(
                this,
                id,
                pos,
                held,
                idx,
                value,
                val_pos,
                budget,
            ) matches Some((_, _, left)) ==> left <= budget,
        decreases budget, 0nat, 2nat,
    {
        match updated(held, idx, value, val_pos) {
            Ok(changed) => {
                self.keeps_setter(this, id, changed, pos, budget);
            },
            _ => {},
        }
    }

    proof fn keeps_call_site(&self, expr: &Expr, scope: Seq<SpecBinding>, budget: nat)
        ensures
            self.meaning_call_site(expr, scope, budget) matches Some(
                (_, after, left),
            ) ==> extends(scope, after) && left <= budget,
        decreases budget, expr.size(), 0nat,
    {
        match expr {
            Expr::FunctionCall(name, args, default, pos) => {
                if name@ != KEYWORD_DUMP_AST@ {
                    self.keeps_items(args@, 0, scope, budget, Seq::empty());
                    match self.meaning_items(args@, 0, scope, budget, Seq::empty()) {
                        Some((Ok(values), after, left)) => {
                            self.keeps_call(
                                name@,
                                values,
                                match default {
                                    Some(value) => Some(value@),
                                    None => None,
                                },
                                *pos,
                                at_most(left, budget),
                            );
                        },
                        _ => {},
                    }
                }
            },
            _ => {},
        }
    }

    proof fn keeps_logic(&self, expr: &Expr, scope: Seq<SpecBinding>, budget: nat)
        ensures
            self.meaning_logic(expr, scope, budget) matches Some(
                (_, after, left),
            ) ==> extends(scope, after) && left <= budget,
        decreases budget, expr.size(), 0nat,
    {
        match expr {
            Expr::And(lhs, rhs) => {
                self.law_expr_keeps(lhs, scope, budget);
                match self.meaning_expr(lhs, scope, budget) {
                    Some((Ok(_), mid, b1)) => {
                        self.law_expr_keeps(rhs, mid, at_most(b1, budget));
                    },
                    _ => {},
                }
            },
            Expr::Or(lhs, rhs) => {
                self.law_expr_keeps(lhs, scope, budget);
                match self.meaning_expr(lhs, scope, budget) {
                    Some((Ok(_), mid, b1)) => {
                        self.law_expr_keeps(rhs, mid, at_most(b1, budget));
                    },
                    _ => {},
                }
            },
            _ => {},
        }
    }

    proof fn keeps_assignment(&self, expr: &Expr, scope: Seq<SpecBinding>, budget: nat)
        ensures
            self.meaning_assignment(expr, scope, budget) matches Some(
                (_, after, left),
            ) ==> extends(scope, after) && left <= budget,
        decreases budget, expr.size(), 0nat,
    {
        match expr {
            Expr::Assignment(lhs, rhs, op_pos) => {
                self.law_expr_keeps(rhs, scope, budget);
                match self.meaning_expr(rhs, scope, budget) {
                    Some((Ok(value), mid, b1)) => match **lhs {
                        Expr::Variable(name, _) => {
                            lemma_lookup(mid, name@);
                        },
                        Expr::Index(base, index, idx_pos) => {
                            assert(lhs.size() == 1 + base.size() + index.size());
                            self.keeps_index(&*base, &*index, idx_pos, mid, at_most(b1, budget));
                        },
                        Expr::Dot(root, chain, _) => {
                            assert(lhs.size() == 1 + root.size() + chain.size());
                            self.keeps_set_dot(
                                &*root,
                                &*chain,
                                value,
                                rhs.position(),
                                *op_pos,
                                mid,
                                at_most(b1, budget),
                            );
                        },
                        _ => {},
                    },
                    _ => {},
                }
            },
            _ => {},
        }
    }

    proof fn keeps_items(
        &self,
        items: Seq<Expr>,
        from: int,
        scope: Seq<SpecBinding>,
        budget: nat,
        done: Seq<SpecValue>,
    )
        ensures
            self.meaning_items(items, from, scope, budget, done) matches Some(
                (_, after, left),
            ) ==> extends(scope, after) && left <= budget,
        decreases budget, crate::ast::sizes(items), items.len() - from,
    {
        if 0 <= from < items.len() {
            lemma_item_size(items, from);
            self.law_expr_keeps(&items[from], scope, budget);
            match self.meaning_expr(&items[from], scope, budget) {
                Some((Ok(value), after, left)) => {
                    self.keeps_items(
                        items,
                        from + 1,
                        after,
                        at_most(left, budget),
                        done.push(value),
                    );
                },
                _ => {},
            }
        }
    }

    /// Whatever an index expression resolves to, it leaves the bindings that were there in
    /// place and does not add to the budget; and the root that it names is a variable of
    /// the scope that holds the element.
    pub proof fn keeps_index(
        &self,
        lhs: &Expr,
        index: &Expr,
        idx_pos: Position,
        scope: Seq<SpecBinding>,
        budget: nat,
    )
        ensures
            self.meaning_index(lhs, index, idx_pos, scope, budget) matches Some(
                (result, after, left),
            ) ==> extends(scope, after) && left <= budget && (result matches Ok(target)
                ==> rooted(after, target)),
        decreases budget, 1 + lhs.size() + index.size(), 0nat,
    {
        self.law_expr_keeps(index, scope, budget);
        match self.meaning_expr(index, scope, budget) {
            Some((Ok(number), mid, b1)) => match index_value(number, index.position()) {
                Ok(idx) => match lhs {
                    Expr::Variable(id, _) => {
                        lemma_lookup(mid, id@);
                    },
                    _ => {
                        self.law_expr_keeps(lhs, mid, at_most(b1, budget));
                    },
                },
                _ => {},
            },
            _ => {},
        }
    }

    proof fn keeps_get_call(
        &self,
        this: SpecValue,
        call: &Expr,
        scope: Seq<SpecBinding>,
        budget: nat,
    )
        ensures
            self.meaning_get_call(this, call, scope, budget) matches Some(
                (_, _, after, left),
            ) ==> extends(scope, after) && left <= budget,
        decreases budget, call.size(), 0nat,
    {
        match call {
            Expr::FunctionCall(name, args, default, pos) => {
                self.keeps_items(args@, 0, scope, budget, Seq::empty());
                match self.meaning_items(args@, 0, scope, budget, Seq::empty()) {
                    Some((Ok(values), after, left)) => {
                        self.keeps_call(
                            name@,
                            seq![this] + values,
                            match default {
                                Some(value) => Some(value@),
                                None => None,
                            },
                            *pos,
                            at_most(left, budget),
                        );
                    },
                    _ => {},
                }
            },
            _ => {},
        }
    }

    proof fn keeps_get_base(
        &self,
        this: SpecValue,
        lhs: &Expr,
        err_pos: Position,
        scope: Seq<SpecBinding>,
        budget: nat,
    )
        ensures
            self.meaning_get_base(this, lhs, err_pos, scope, budget) matches Some(
                (_, _, after, left),
            ) ==> extends(scope, after) && left <= budget,
        decreases budget, lhs.size(), 2nat,
    {
        match lhs {
            Expr::Property(id, pos) => {
                self.keeps_getter(this, id@, *pos, budget);
            },
            Expr::Index(_, _, _) => {
                self.keeps_get_helper(this, lhs, scope, budget);
            },
            _ => {},
        }
    }

    proof fn keeps_element(
        &self,
        container: SpecValue,
        index: &Expr,
        idx_pos: Position,
        scope: Seq<SpecBinding>,
        budget: nat,
    )
        ensures
            self.meaning_element(container, index, idx_pos, scope, budget) matches Some(
                (_, after, left),
            ) ==> extends(scope, after) && left <= budget,
        decreases budget, index.size(), 2nat,
    {
        self.law_expr_keeps(index, scope, budget);
    }

    proof fn keeps_get_indexed(
        &self,
        this: SpecValue,
        lhs: &Expr,
        index: &Expr,
        idx_pos: Position,
        err_pos: Position,
        scope: Seq<SpecBinding>,
        budget: nat,
    )
        ensures
            self.meaning_get_indexed(
                this,
                lhs,
                index,
                idx_pos,
                err_pos,
                scope,
                budget,
            ) matches Some(
                (_, _, after, left),
            ) ==> extends(scope, after) && left <= budget,
        decreases budget, 1 + lhs.size() + index.size(), 0nat,
    {
        self.keeps_get_base(this, lhs, err_pos, scope, budget);
        match self.meaning_get_base(this, lhs, err_pos, scope, budget) {
            Some((Ok(container), _, mid, b1)) => {
                self.keeps_element(container, index, idx_pos, mid, at_most(b1, budget));
            },
            _ => {},
        }
    }

    proof fn keeps_get_property_then(
        &self,
        this: SpecValue,
        id: Seq<char>,
        pos: Position,
        rest: &Expr,
        scope: Seq<SpecBinding>,
        budget: nat,
    )
        ensures
            self.meaning_get_property_then(this, id, pos, rest, scope, budget) matches Some(
                (_, _, after, left),
            ) ==> extends(scope, after) && left <= budget,
        decreases budget, 1 + rest.size(), 0nat,
    {
        self.keeps_getter(this, id, pos, budget);
        match self.meaning_getter(this, id, pos, budget) {
            Some((Ok(value), _, left)) => {
                self.keeps_get_helper(value, rest, scope, at_most(left, budget));
            },
            _ => {},
        }
    }

    proof fn keeps_get_indexed_then(
        &self,
        this: SpecValue,
        lhs: &Expr,
        index: &Expr,
        idx_pos: Position,
        err_pos: Position,
        rest: &Expr,
        scope: Seq<SpecBinding>,
        budget: nat,
    )
        ensures
            self.meaning_get_indexed_then(
                this,
                lhs,
                index,
                idx_pos,
                err_pos,
                rest,
                scope,
                budget,
            ) matches Some(
                (_, _, after, left),
            ) ==> extends(scope, after) && left <= budget,
        decreases budget, 2 + lhs.size() + index.size() + rest.size(), 0nat,
    {
        self.keeps_get_indexed(this, lhs, index, idx_pos, err_pos, scope, budget);
        match self.meaning_get_indexed(this, lhs, index, idx_pos, err_pos, scope, budget) {
            Some((Ok(value), _, after, left)) => {
                self.keeps_get_helper(value, rest, after, at_most(left, budget));
            },
            _ => {},
        }
    }

    proof fn keeps_get_helper(
        &self,
        this: SpecValue,
        rhs: &Expr,
        scope: Seq<SpecBinding>,
        budget: nat,
    )
        ensures
            self.meaning_get_helper(this, rhs, scope, budget) matches Some(
                (_, _, after, left),
            ) ==> extends(scope, after) && left <= budget,
        decreases budget, rhs.size(), 1nat,
    {
        match rhs {
            Expr::FunctionCall(_, _, _, _) => {
                self.keeps_get_call(this, rhs, scope, budget);
            },
            Expr::Property(id, pos) => {
                self.keeps_getter(this, id@, *pos, budget);
            },
            Expr::Index(lhs, index, idx_pos) => {
                self.keeps_get_indexed(this, lhs, index, *idx_pos, rhs.position(), scope, budget);
            },
            Expr::Dot(lhs, rest, _) => match **lhs {
                Expr::Property(id, pos) => {
                    self.keeps_get_property_then(this, id@, pos, rest, scope, budget);
                },
                Expr::Index(base, index, idx_pos) => {
                    assert(lhs.size() == 1 + base.size() + index.size());
                    self.keeps_get_indexed_then(
                        this,
                        &*base,
                        &*index,
                        idx_pos,
                        rhs.position(),
                        rest,
                        scope,
                        budget,
                    );
                },
                _ => {},
            },
            _ => {},
        }
    }

    proof fn keeps_get_variable(
        &self,
        id: Seq<char>,
        pos: Position,
        rhs: &Expr,
        scope: Seq<SpecBinding>,
        budget: nat,
    )
        ensures
            self.meaning_get_variable(id, pos, rhs, scope, budget) matches Some(
                (_, after, left),
            ) ==> extends(scope, after) && left <= budget,
        decreases budget, rhs.size(), 2nat,
    {
        lemma_lookup(scope, id);
        match found(scope, id, pos) {
            Ok((_, _, target)) => {
                self.keeps_get_helper(target, rhs, scope, budget);
            },
            _ => {},
        }
    }

    proof fn keeps_get_element(
        &self,
        base: &Expr,
        index: &Expr,
        idx_pos: Position,
        rhs: &Expr,
        scope: Seq<SpecBinding>,
        budget: nat,
    )
        ensures
            self.meaning_get_element(base, index, idx_pos, rhs, scope, budget) matches Some(
                (_, after, left),
            ) ==> extends(scope, after) && left <= budget,
        decreases budget, 1 + base.size() + index.size() + rhs.size(), 0nat,
    {
        self.keeps_index(base, index, idx_pos, scope, budget);
        match self.meaning_index(base, index, idx_pos, scope, budget) {
            Some((Ok(target), mid, b1)) => {
                self.keeps_get_helper(target.value, rhs, mid, at_most(b1, budget));
            },
            _ => {},
        }
    }

    proof fn keeps_get_dot(&self, lhs: &Expr, rhs: &Expr, scope: Seq<SpecBinding>, budget: nat)
        ensures
            self.meaning_get_dot(lhs, rhs, scope, budget) matches Some(
                (_, after, left),
            ) ==> extends(scope, after) && left <= budget,
        decreases budget, 1 + lhs.size() + rhs.size(), 0nat,
    {
        match lhs {
            Expr::Variable(id, pos) => {
                self.keeps_get_variable(id@, *pos, rhs, scope, budget);
            },
            Expr::Index(base, index, idx_pos) => {
                self.keeps_get_element(base, index, *idx_pos, rhs, scope, budget);
            },
            _ => {
                self.law_expr_keeps(lhs, scope, budget);
                match self.meaning_expr(lhs, scope, budget) {
                    Some((Ok(target), mid, b1)) => {
                        self.keeps_get_helper(target, rhs, mid, at_most(b1, budget));
                    },
                    _ => {},
                }
            },
        }
    }

    proof fn keeps_set_at(
        &self,
        kept: SpecValue,
        id: Seq<char>,
        pos: Position,
        held: SpecValue,
        index: &Expr,
        idx_pos: Position,
        new_val: SpecValue,
        val_pos: Position,
        scope: Seq<SpecBinding>,
        budget: nat,
    )
        ensures
            self.meaning_set_at(
                kept,
                id,
                pos,
                held,
                index,
                idx_pos,
                new_val,
                val_pos,
                scope,
                budget,
            ) matches Some(
                (_, _, after, left),
            ) ==> extends(scope, after) && left <= budget,
        decreases budget, index.size(), 2nat,
    {
        self.law_expr_keeps(index, scope, budget);
        match self.meaning_expr(index, scope, budget) {
            Some((Ok(number), after, b2)) => match index_value(number, index.position()) {
                Ok(idx) => {
                    self.keeps_put_and_set(
                        kept,
                        id,
                        pos,
                        held,
                        idx,
                        new_val,
                        val_pos,
                        at_most(b2, budget),
                    );
                },
                _ => {},
            },
            _ => {},
        }
    }

    proof fn keeps_set_indexed(
        &self,
        this: SpecValue,
        id: Seq<char>,
        pos: Position,
        index: &Expr,
        idx_pos: Position,
        new_val: SpecValue,
        val_pos: Position,
        scope: Seq<SpecBinding>,
        budget: nat,
    )
        ensures
            self.meaning_set_indexed(
                this,
                id,
                pos,
                index,
                idx_pos,
                new_val,
                val_pos,
                scope,
                budget,
            ) matches Some(
                (_, _, after, left),
            ) ==> extends(scope, after) && left <= budget,
        decreases budget, index.size(), 3nat,
    {
        self.keeps_getter(this, id, pos, budget);
        match self.meaning_getter(this, id, pos, budget) {
            Some((Ok(held), kept, b1)) => {
                self.keeps_set_at(
                    kept,
                    id,
                    pos,
                    held,
                    index,
                    idx_pos,
                    new_val,
                    val_pos,
                    scope,
                    at_most(b1, budget),
                );
            },
            _ => {},
        }
    }

    proof fn keeps_set_property_then(
        &self,
        this: SpecValue,
        id: Seq<char>,
        pos: Position,
        rest: &Expr,
        new_val: SpecValue,
        val_pos: Position,
        scope: Seq<SpecBinding>,
        budget: nat,
    )
        ensures
            self.meaning_set_property_then(
                this,
                id,
                pos,
                rest,
                new_val,
                val_pos,
                scope,
                budget,
            ) matches Some(
                (_, _, after, left),
            ) ==> extends(scope, after) && left <= budget,
        decreases budget, 1 + rest.size(), 0nat,
    {
        self.keeps_getter(this, id, pos, budget);
        match self.meaning_getter(this, id, pos, budget) {
            Some((Ok(held), kept, b1)) => {
                self.keeps_set_helper(held, rest, new_val, val_pos, scope, at_most(b1, budget));
                match self.meaning_set_helper(
                    held,
                    rest,
                    new_val,
                    val_pos,
                    scope,
                    at_most(b1, budget),
                ) {
                    Some((Ok(_), changed, after, b2)) => {
                        self.keeps_setter(kept, id, changed, pos, at_most(b2, budget));
                    },
                    _ => {},
                }
            },
            _ => {},
        }
    }

    proof fn keeps_set_in_element(
        &self,
        this: SpecValue,
        id: Seq<char>,
        pos: Position,
        held: SpecValue,
        idx: int,
        target: SpecValue,
        rest: &Expr,
        new_val: SpecValue,
        val_pos: Position,
        scope: Seq<SpecBinding>,
        budget: nat,
    )
        ensures
            self.meaning_set_in_element(
                this,
                id,
                pos,
                held,
                idx,
                target,
                rest,
                new_val,
                val_pos,
                scope,
                budget,
            ) matches Some(
                (_, _, after, left),
            ) ==> extends(scope, after) && left <= budget,
        decreases budget, rest.size(), 5nat,
    {
        self.keeps_set_helper(target, rest, new_val, val_pos, scope, budget);
        match self.meaning_set_helper(target, rest, new_val, val_pos, scope, budget) {
            Some((Ok(_), changed, after, left)) => {
                self.keeps_put_and_set(
                    this,
                    id,
                    pos,
                    held,
                    idx,
                    changed,
                    val_pos,
                    at_most(left, budget),
                );
            },
            _ => {},
        }
    }

    proof fn keeps_set_through_at(
        &self,
        kept: SpecValue,
        id: Seq<char>,
        pos: Position,
        held: SpecValue,
        index: &Expr,
        idx_pos: Position,
        rest: &Expr,
        new_val: SpecValue,
        val_pos: Position,
        scope: Seq<SpecBinding>,
        budget: nat,
    )
        ensures
            self.meaning_set_through_at(
                kept,
                id,
                pos,
                held,
                index,
                idx_pos,
                rest,
                new_val,
                val_pos,
                scope,
                budget,
            ) matches Some(
                (_, _, after, left),
            ) ==> extends(scope, after) && left <= budget,
        decreases budget, 1 + index.size() + rest.size(), 0nat,
    {
        self.law_expr_keeps(index, scope, budget);
        match self.meaning_expr(index, scope, budget) {
            Some((Ok(number), mid, b2)) => match index_value(number, index.position()) {
                Ok(idx) => match self.indexed(held, idx, index.position(), idx_pos) {
                    Ok((target, _)) => {
                        self.keeps_set_in_element(
                            kept,
                            id,
                            pos,
                            held,
                            idx,
                            target,
                            rest,
                            new_val,
                            val_pos,
                            mid,
                            at_most(b2, budget),
                        );
                    },
                    _ => {},
                },
                _ => {},
            },
            _ => {},
        }
    }

    proof fn keeps_set_through(
        &self,
        this: SpecValue,
        id: Seq<char>,
        pos: Position,
        index: &Expr,
        idx_pos: Position,
        rest: &Expr,
        new_val: SpecValue,
        val_pos: Position,
        scope: Seq<SpecBinding>,
        budget: nat,
    )
        ensures
            self.meaning_set_through(
                this,
                id,
                pos,
                index,
                idx_pos,
                rest,
                new_val,
                val_pos,
                scope,
                budget,
            ) matches Some(
                (_, _, after, left),
            ) ==> extends(scope, after) && left <= budget,
        decreases budget, 1 + index.size() + rest.size(), 1nat,
    {
        self.keeps_getter(this, id, pos, budget);
        match self.meaning_getter(this, id, pos, budget) {
            Some((Ok(held), kept, b1)) => {
                self.keeps_set_through_at(
                    kept,
                    id,
                    pos,
                    held,
                    index,
                    idx_pos,
                    rest,
                    new_val,
                    val_pos,
                    scope,
                    at_most(b1, budget),
                );
            },
            _ => {},
        }
    }

    proof fn keeps_set_helper(
        &self,
        this: SpecValue,
        rhs: &Expr,
        new_val: SpecValue,
        val_pos: Position,
        scope: Seq<SpecBinding>,
        budget: nat,
    )
        ensures
            self.meaning_set_helper(this, rhs, new_val, val_pos, scope, budget) matches Some(
                (_, _, after, left),
            ) ==> extends(scope, after) && left <= budget,
        decreases budget, rhs.size(), 4nat,
    {
        match rhs {
            Expr::Property(id, pos) => {
                self.keeps_setter(this, id@, new_val, *pos, budget);
            },
            Expr::Index(lhs, index, idx_pos) => match **lhs {
                Expr::Property(id, pos) => {
                    self.keeps_set_indexed(
                        this,
                        id@,
                        pos,
                        index,
                        *idx_pos,
                        new_val,
                        val_pos,
                        scope,
                        budget,
                    );
                },
                _ => {},
            },
            Expr::Dot(lhs, rest, _) => match **lhs {
                Expr::Property(id, pos) => {
                    self.keeps_set_property_then(
                        this,
                        id@,
                        pos,
                        rest,
                        new_val,
                        val_pos,
                        scope,
                        budget,
                    );
                },
                Expr::Index(base, index, idx_pos) => match *base {
                    Expr::Property(id, pos) => {
                        assert(lhs.size() == 1 + base.size() + index.size());
                        self.keeps_set_through(
                            this,
                            id@,
                            pos,
                            &*index,
                            idx_pos,
                            rest,
                            new_val,
                            val_pos,
                            scope,
                            budget,
                        );
                    },
                    _ => {},
                },
                _ => {},
            },
            _ => {},
        }
    }

    proof fn keeps_set_variable(
        &self,
        id: Seq<char>,
        pos: Position,
        rhs: &Expr,
        new_val: SpecValue,
        val_pos: Position,
        op_pos: Position,
        scope: Seq<SpecBinding>,
        budget: nat,
    )
        ensures
            self.meaning_set_variable(
                id,
                pos,
                rhs,
                new_val,
                val_pos,
                op_pos,
                scope,
                budget,
            ) matches Some(
                (_, after, left),
            ) ==> extends(scope, after) && left <= budget,
        decreases budget, rhs.size(), 5nat,
    {
        lemma_lookup(scope, id);
        match found(scope, id, pos) {
            Ok((_, _, target)) => {
                self.keeps_set_helper(target, rhs, new_val, val_pos, scope, budget);
            },
            _ => {},
        }
    }

    proof fn keeps_set_element(
        &self,
        base: &Expr,
        index: &Expr,
        idx_pos: Position,
        rhs: &Expr,
        new_val: SpecValue,
        val_pos: Position,
        scope: Seq<SpecBinding>,
        budget: nat,
    )
        ensures
            self.meaning_set_element(
                base,
                index,
                idx_pos,
                rhs,
                new_val,
                val_pos,
                scope,
                budget,
            ) matches Some(
                (_, after, left),
            ) ==> extends(scope, after) && left <= budget,
        decreases budget, 1 + base.size() + index.size() + rhs.size(), 5nat,
    {
        self.keeps_index(base, index, idx_pos, scope, budget);
        match self.meaning_index(base, index, idx_pos, scope, budget) {
            Some((Ok(target), mid, b1)) => {
                self.keeps_set_helper(
                    target.value,
                    rhs,
                    new_val,
                    val_pos,
                    mid,
                    at_most(b1, budget),
                );
            },
            _ => {},
        }
    }

    proof fn keeps_set_dot(
        &self,
        lhs: &Expr,
        rhs: &Expr,
        new_val: SpecValue,
        val_pos: Position,
        op_pos: Position,
        scope: Seq<SpecBinding>,
        budget: nat,
    )
        ensures
            self.meaning_set_dot(lhs, rhs, new_val, val_pos, op_pos, scope, budget) matches Some(
                (_, after, left),
            ) ==> extends(scope, after) && left <= budget,
        decreases budget, 1 + lhs.size() + rhs.size(), 6nat,
    {
        match lhs {
            Expr::Variable(id, pos) => {
                self.keeps_set_variable(id@, *pos, rhs, new_val, val_pos, op_pos, scope, budget);
            },
            Expr::Index(base, index, idx_pos) => {
                self.keeps_set_element(
                    base,
                    index,
                    *idx_pos,
                    rhs,
                    new_val,
                    val_pos,
                    scope,
                    budget,
                );
            },
            _ => {},
        }
    }

    /// Whatever a statement means, it leaves the bindings that were there in place, under
    /// their names and of their kinds, and does not add to the budget; and a block leaves
    /// the scope as long as it found it.
    pub proof fn law_stmt_keeps(&self, stmt: &Stmt, scope: Seq<SpecBinding>, budget: nat)
        ensures
            self.meaning_stmt(stmt, scope, budget) matches Some((_, after, left)) ==> extends(
                scope,
                after,
            ) && left <= budget,
            stmt is Block ==> (self.meaning_stmt(stmt, scope, budget) matches Some((_, after, _))
                ==> after.len() == scope.len()),
        decreases budget, stmt.size(), 1nat,
    {
        match stmt {
            Stmt::Expr(expr) => {
                self.law_expr_keeps(expr, scope, budget);
            },
            Stmt::Block(stmts, _) => {
                self.keeps_stmts(stmts@, 0, scope, budget, SpecValue::Unit);
            },
            Stmt::IfElse(_, _, _) => {
                self.keeps_if(stmt, scope, budget);
            },
            Stmt::While(guard, body) => {
                self.keeps_while(guard, body, scope, budget);
            },
            Stmt::Loop(body) => {
                self.keeps_loop(body, scope, budget);
            },
            Stmt::For(_, _, _) => {
                self.keeps_for(stmt, scope, budget);
            },
            Stmt::ReturnWithVal(_, _, _) => {
                self.keeps_return(stmt, scope, budget);
            },
            Stmt::Let(_, _, _) => {
                self.keeps_let(stmt, scope, budget);
            },
            Stmt::Const(_, _, _) => {
                self.keeps_let(stmt, scope, budget);
            },
            _ => {},
        }
    }

    proof fn keeps_if(&self, stmt: &Stmt, scope: Seq<SpecBinding>, budget: nat)
        ensures
            self.meaning_if(stmt, scope, budget) matches Some(
                (_, after, left),
            ) ==> extends(scope, after) && left <= budget,
        decreases budget, stmt.size(), 0nat,
    {
        match stmt {
            Stmt::IfElse(guard, body, other) => {
                self.law_expr_keeps(guard, scope, budget);
                match self.meaning_expr(guard, scope, budget) {
                    Some((Ok(value), mid, b1)) => match guard_value(value, guard.position()) {
                        Ok(true) => {
                            self.law_stmt_keeps(body, mid, at_most(b1, budget));
                        },
                        Ok(false) => match other {
                            Some(stmt) => {
                                self.law_stmt_keeps(stmt, mid, at_most(b1, budget));
                            },
                            None => {},
                        },
                        _ => {},
                    },
                    _ => {},
                }
            },
            _ => {},
        }
    }

    proof fn keeps_for(&self, stmt: &Stmt, scope: Seq<SpecBinding>, budget: nat)
        ensures
            self.meaning_for(stmt, scope, budget) matches Some(
                (_, after, left),
            ) ==> extends(scope, after) && left <= budget,
        decreases budget, stmt.size(), 0nat,
    {
        match stmt {
            Stmt::For(name, expr, body) => {
                self.law_expr_keeps(expr, scope, budget);
                lemma_size_positive(expr);
                match self.meaning_expr(expr, scope, budget) {
                    Some((Ok(value), after, left)) => {
                        match self.walked(value) {
                            Some(items) => {
                                self.keeps_for_items(
                                    items,
                                    0,
                                    after.len() as int,
                                    body,
                                    after.push(
                                        SpecBinding {
                                            name: name@,
                                            kind: VariableType::Normal,
                                            value: SpecValue::Unit,
                                        },
                                    ),
                                    at_most(left, budget),
                                );
                            },
                            None => {},
                        }
                    },
                    _ => {},
                }
            },
            _ => {},
        }
    }

    proof fn keeps_for_items(
        &self,
        items: Seq<SpecValue>,
        from: int,
        idx: int,
        body: &Stmt,
        scope: Seq<SpecBinding>,
        budget: nat,
    )
        requires
            0 <= idx < scope.len(),
        ensures
            self.meaning_for_items(items, from, idx, body, scope, budget) matches Some(
                (_, after, left),
            ) ==> extends(scope.drop_last(), after) && left <= budget,
        decreases budget, 1 + body.size(), 0nat,
    {
        if 0 <= from < items.len() && budget > 0 {
            let rest = (budget - 1) as nat;
            let bound = with_value(scope, idx, items[from]);
            self.law_stmt_keeps(body, bound, rest);
            match self.meaning_stmt(body, bound, rest) {
                Some((Ok(_), after, left)) => {
                    self.keeps_for_items(items, from + 1, idx, body, after, at_most(left, rest));
                    assert(extends(scope.drop_last(), after.drop_last()));
                },
                Some((Err(_), after, _)) => {
                    assert(extends(scope.drop_last(), after.drop_last()));
                },
                None => {},
            }
        }
    }

    proof fn keeps_return(&self, stmt: &Stmt, scope: Seq<SpecBinding>, budget: nat)
        ensures
            self.meaning_return(stmt, scope, budget) matches Some(
                (_, after, left),
            ) ==> extends(scope, after) && left <= budget,
        decreases budget, stmt.size(), 0nat,
    {
        match stmt {
            Stmt::ReturnWithVal(value, _, _) => match value {
                Some(expr) => {
                    self.law_expr_keeps(expr, scope, budget);
                },
                None => {},
            },
            _ => {},
        }
    }

    proof fn keeps_let(&self, stmt: &Stmt, scope: Seq<SpecBinding>, budget: nat)
        ensures
            self.meaning_let(stmt, scope, budget) matches Some(
                (_, after, left),
            ) ==> extends(scope, after) && left <= budget,
        decreases budget, stmt.size(), 0nat,
    {
        match stmt {
            Stmt::Let(_, init, _) => match init {
                Some(expr) => {
                    self.law_expr_keeps(expr, scope, budget);
                },
                None => {},
            },
            Stmt::Const(_, init, _) => {
                self.law_expr_keeps(init, scope, budget);
            },
            _ => {},
        }
    }

    proof fn keeps_stmts(
        &self,
        stmts: Seq<Stmt>,
        from: int,
        scope: Seq<SpecBinding>,
        budget: nat,
        last: SpecValue,
    )
        ensures
            self.meaning_stmts(stmts, from, scope, budget, last) matches Some(
                (_, after, left),
            ) ==> extends(scope, after) && left <= budget,
        decreases budget, crate::ast::stmt_sizes(stmts), stmts.len() - from,
    {
        if 0 <= from < stmts.len() {
            lemma_stmt_size(stmts, from);
            self.law_stmt_keeps(&stmts[from], scope, budget);
            match self.meaning_stmt(&stmts[from], scope, budget) {
                Some((Ok(value), after, left)) => {
                    self.keeps_stmts(stmts, from + 1, after, at_most(left, budget), value);
                },
                _ => {},
            }
        }
    }

    proof fn keeps_while(&self, guard: &Expr, body: &Stmt, scope: Seq<SpecBinding>, budget: nat)
        ensures
            self.meaning_while(guard, body, scope, budget) matches Some(
                (_, after, left),
            ) ==> extends(scope, after) && left <= budget,
        decreases budget, 1 + guard.size() + body.size(), 0nat,
    {
        if budget > 0 {
            let rest = (budget - 1) as nat;
            self.law_expr_keeps(guard, scope, rest);
            match self.meaning_expr(guard, scope, rest) {
                Some((Ok(value), mid, b1)) => match guard_value(value, guard.position()) {
                    Ok(true) => {
                        self.law_stmt_keeps(body, mid, at_most(b1, rest));
                        match self.meaning_stmt(body, mid, at_most(b1, rest)) {
                            Some((Ok(_), after, b2)) => {
                                self.keeps_while(guard, body, after, at_most(b2, rest));
                            },
                            _ => {},
                        }
                    },
                    _ => {},
                },
                _ => {},
            }
        }
    }

    proof fn keeps_loop(&self, body: &Stmt, scope: Seq<SpecBinding>, budget: nat)
        ensures
            self.meaning_loop(body, scope, budget) matches Some(
                (_, after, left),
            ) ==> extends(scope, after) && left <= budget,
        decreases budget, 1 + body.size(), 0nat,
    {
        if budget > 0 {
            let rest = (budget - 1) as nat;
            self.law_stmt_keeps(body, scope, rest);
            match self.meaning_stmt(body, scope, rest) {
                Some((Ok(_), after, b1)) => {
                    self.keeps_loop(body, after, at_most(b1, rest));
                },
                _ => {},
            }
        }
    }

    /// A block leaves the scope as long as it found it, whatever it ends in.
    pub proof fn law_block_keeps_length(&self, block: &Stmt, scope: Seq<SpecBinding>, budget: nat)
        requires
            block is Block,
        ensures
            block.scoped(),
            self.meaning_stmt(block, scope, budget) matches Some((_, after, _)) ==> after.len()
                == scope.len() && extends(scope, after),
    {
        self.law_stmt_keeps(block, scope, budget);
    }

    /// `let x = E` binds the value of `E` to `x` as the newest variable of the scope that
    /// `E` left.
    pub proof fn law_let_binds(&self, stmt: &Stmt, scope: Seq<SpecBinding>, budget: nat)
        requires
            stmt matches Stmt::Let(_, Some(init), _) && self.meaning_expr(&**init, scope, budget)
                matches Some((Ok(_), _, _)),
        ensures
            stmt matches Stmt::Let(name, Some(init), _) && self.meaning_expr(
                &**init,
                scope,
                budget,
            ) matches Some((Ok(value), mid, left)) && self.meaning_stmt(stmt, scope, budget)
                == Some(
                (
                    Ok::<_, SpecError>(SpecValue::Unit),
                    mid.push(SpecBinding { name: name@, kind: VariableType::Normal, value }),
                    left,
                ),
            ),
    {
        match stmt {
            Stmt::Let(name, Some(init), _) => {
                assert(self.meaning_stmt(stmt, scope, budget) == self.meaning_let(
                    stmt,
                    scope,
                    budget,
                ));
            },
            _ => {},
        }
    }

    /// A reference to `x` reads the binding that a `let x` made, in the same scope and in
    /// every inner one, whatever statements came between: where `bound` is the scope right
    /// after the `let`, and `later` holds the bindings of `bound` in their places and no
    /// newer binding of that name, the reference gives what that binding holds in `later`,
    /// and changes nothing.
    pub proof fn law_reference_reads_let(
        &self,
        reference: &Expr,
        bound: Seq<SpecBinding>,
        later: Seq<SpecBinding>,
        budget: nat,
    )
        requires
            bound.len() > 0,
            extends(bound, later),
            reference matches Expr::Variable(id, _) && id@ == bound.last().name,
            forall|j: int|
                bound.len() <= j < later.len() ==> (#[trigger] later[j]).name != bound.last().name,
        ensures
            self.meaning_expr(reference, later, budget) == Some(
                (Ok::<_, SpecError>(later[bound.len() - 1].value), later, budget),
            ),
    {
        let name = bound.last().name;
        lemma_lookup(later, name);
        assert(later[bound.len() - 1].name == name);
    }

    /// What a block declares is gone after the block: whatever the block ends in, every
    /// name is found after it where it was found before it, and is not found after it if
    /// it was not found before it.
    pub proof fn law_block_forgets(
        &self,
        block: &Stmt,
        scope: Seq<SpecBinding>,
        budget: nat,
        name: Seq<char>,
    )
        requires
            block is Block,
        ensures
            self.meaning_stmt(block, scope, budget) matches Some((_, after, _)) ==> lookup(
                after,
                name,
            ) == lookup(scope, name),
    {
        self.law_block_keeps_length(block, scope, budget);
        match self.meaning_stmt(block, scope, budget) {
            Some((_, after, _)) => {
                law_lookup_by_names(scope, after, name);
            },
            None => {},
        }
    }

    /// `let x = E; x` is the value of `E`.
    pub proof fn law_let_then_reference(
        &self,
        stmts: Seq<Stmt>,
        scope: Seq<SpecBinding>,
        budget: nat,
    )
        requires
            stmts.len() == 2,
            stmts[0] matches Stmt::Let(name, Some(init), _) && stmts[1] matches Stmt::Expr(
                reference,
            ) && (*reference) matches Expr::Variable(id, _) && self.meaning_expr(
                &*init,
                scope,
                budget,
            ) matches Some((Ok(_), _, _)) && id@ == name@,
        ensures
            stmts[0] matches Stmt::Let(_, Some(init), _) && self.meaning_expr(
                &*init,
                scope,
                budget,
            ) matches Some((Ok(value), _, _)) && self.meaning_stmts(
                stmts,
                0,
                scope,
                budget,
                SpecValue::Unit,
            ) matches Some((Ok(result), _, _)) && result == value,
    {
        match stmts[0] {
            Stmt::Let(name, Some(init), _) => {
                self.law_expr_keeps(&*init, scope, budget);
                match self.meaning_expr(&*init, scope, budget) {
                    Some((Ok(value), after, left)) => {
                        let binding = SpecBinding {
                            name: name@,
                            kind: VariableType::Normal,
                            value,
                        };
                        law_push_then_lookup(after, binding);
                        let grown = after.push(binding);
                        let rest = at_most(left, budget);
                        assert(self.meaning_stmt(&stmts[0], scope, budget) == Some(
                            (Ok::<_, SpecError>(SpecValue::Unit), grown, left),
                        ));
                        match stmts[1] {
                            Stmt::Expr(reference) => {
                                assert(self.meaning_expr(&*reference, grown, rest) == Some(
                                    (Ok::<_, SpecError>(value), grown, rest),
                                ));
                                assert(self.meaning_stmt(&stmts[1], grown, rest) == Some(
                                    (Ok::<_, SpecError>(value), grown, rest),
                                ));
                                assert(self.meaning_stmts(
                                    stmts,
                                    2,
                                    grown,
                                    at_most(rest, rest),
                                    value,
                                ) == Some((Ok::<_, SpecError>(value), grown, at_most(rest, rest))));
                                assert(self.meaning_stmts(stmts, 1, grown, rest, SpecValue::Unit)
                                    == Some(
                                    (Ok::<_, SpecError>(value), grown, at_most(rest, rest)),
                                ));
                            },
                            _ => {},
                        }
                    },
                    _ => {},
                }
            },
            _ => {},
        }
    }

    /// A variable is seen from a block within its scope: `{ x }` is the value that `x` holds.
    pub proof fn law_reference_from_inner_block(
        &self,
        block: &Stmt,
        scope: Seq<SpecBinding>,
        budget: nat,
    )
        requires
            block matches Stmt::Block(stmts, _) && stmts@[0] matches Stmt::Expr(reference) && (
            *reference) matches Expr::Variable(id, _) && stmts@.len() == 1 && lookup(scope, id@)
                is Some,
        ensures
            block matches Stmt::Block(stmts, _) && stmts@[0] matches Stmt::Expr(reference) && (
            *reference) matches Expr::Variable(id, _) && self.meaning_stmt(block, scope, budget)
                == Some((Ok::<_, SpecError>(scope[lookup(scope, id@)->0].value), scope, budget)),
    {
        match block {
            Stmt::Block(stmts, _) => {
                assert(scope.subrange(0, scope.len() as int) =~= scope);
                match stmts@[0] {
                    Stmt::Expr(reference) => match *reference {
                        Expr::Variable(id, pos) => {
                            lemma_lookup(scope, id@);
                            let value = scope[lookup(scope, id@)->0].value;
                            assert(self.meaning_expr(&*reference, scope, budget) == Some(
                                (Ok::<_, SpecError>(value), scope, budget),
                            ));
                            assert(self.meaning_stmt(&stmts@[0], scope, budget) == Some(
                                (Ok::<_, SpecError>(value), scope, budget),
                            ));
                            assert(self.meaning_stmts(stmts@, 1, scope, budget, value) == Some(
                                (Ok::<_, SpecError>(value), scope, budget),
                            ));
                            assert(self.meaning_stmts(stmts@, 0, scope, budget, SpecValue::Unit)
                                == Some((Ok::<_, SpecError>(value), scope, budget)));
                        },
                        _ => {},
                    },
                    _ => {},
                }
            },
            _ => {},
        }
    }

    /// A variable that a block declares is gone after the block: `{ let x = E; } x` does not
    /// find `x`, where no `x` was there before.
    pub proof fn law_let_ends_with_block(
        &self,
        stmts: Seq<Stmt>,
        scope: Seq<SpecBinding>,
        budget: nat,
    )
        requires
            stmts.len() == 2,
            stmts[0] matches Stmt::Block(inner, _) && inner@[0] matches Stmt::Let(
                name,
                Some(init),
                _,
            ) && stmts[1] matches Stmt::Expr(reference) && (*reference) matches Expr::Variable(
                id,
                _,
            ) && self.meaning_expr(&*init, scope, budget) matches Some((Ok(_), _, _))
                && inner@.len() == 1 && id@ == name@ && lookup(scope, name@) is None,
        ensures
            stmts[1] matches Stmt::Expr(reference) && (*reference) matches Expr::Variable(id, pos)
                && self.meaning_stmts(stmts, 0, scope, budget, SpecValue::Unit) matches Some(
                (Err(error), _, _),
            ) && error == SpecError::VariableNotFound(id@, pos),
    {
        match stmts[0] {
            Stmt::Block(inner, _) => match inner@[0] {
                Stmt::Let(name, Some(init), _) => {
                    self.law_expr_keeps(&*init, scope, budget);
                    match self.meaning_expr(&*init, scope, budget) {
                        Some((Ok(value), after, left)) => {
                            let binding = SpecBinding {
                                name: name@,
                                kind: VariableType::Normal,
                                value,
                            };
                            let grown = after.push(binding);
                            let rewound = grown.subrange(0, scope.len() as int);
                            let unit = Ok::<SpecValue, SpecError>(SpecValue::Unit);
                            assert(self.meaning_stmt(&inner@[0], scope, budget) == Some(
                                (unit, grown, left),
                            ));
                            assert(self.meaning_stmts(
                                inner@,
                                1,
                                grown,
                                at_most(left, budget),
                                SpecValue::Unit,
                            ) == Some((unit, grown, at_most(left, budget))));
                            assert(self.meaning_stmts(inner@, 0, scope, budget, SpecValue::Unit)
                                == Some((unit, grown, at_most(left, budget))));
                            assert forall|i: int| 0 <= i < rewound.len() implies (
                            #[trigger] rewound[i]).name == scope[i].name by {
                                assert(after[i].name == scope[i].name);
                            }
                            law_lookup_by_names(rewound, scope, name@);
                            assert(self.meaning_stmt(&stmts[0], scope, budget) == Some(
                                (unit, rewound, at_most(left, budget)),
                            ));
                            let rest = at_most(at_most(left, budget), budget);
                            match stmts[1] {
                                Stmt::Expr(reference) => match *reference {
                                    Expr::Variable(id, pos) => {
                                        let missing = Err::<SpecValue, _>(
                                            SpecError::VariableNotFound(id@, pos),
                                        );
                                        assert(self.meaning_expr(&*reference, rewound, rest)
                                            == Some((missing, rewound, rest)));
                                        assert(self.meaning_stmt(&stmts[1], rewound, rest) == Some(
                                            (missing, rewound, rest),
                                        ));
                                        assert(self.meaning_stmts(
                                            stmts,
                                            1,
                                            rewound,
                                            rest,
                                            SpecValue::Unit,
                                        ) == Some((missing, rewound, rest)));
                                    },
                                    _ => {},
                                },
                                _ => {},
                            }
                        },
                        _ => {},
                    }
                },
                _ => {},
            },
            _ => {},
        }
    }

    /// An assignment to a variable that is a constant is refused, and nothing is written.
    pub proof fn law_constant_refuses_assignment(
        &self,
        expr: &Expr,
        scope: Seq<SpecBinding>,
        budget: nat,
    )
        requires
            expr matches Expr::Assignment(lhs, rhs, _) && (**lhs) matches Expr::Variable(name, _)
                && self.meaning_expr(&**rhs, scope, budget) matches Some((Ok(_), mid, _))
                && lookup(mid, name@) matches Some(index) && mid[index].kind
                == VariableType::Constant,
        ensures
            expr matches Expr::Assignment(lhs, rhs, op_pos) && (**lhs) matches Expr::Variable(
                name,
                _,
            ) && self.meaning_expr(&**rhs, scope, budget) matches Some((_, mid, left))
                && self.meaning_expr(expr, scope, budget) == Some(
                (Err::<SpecValue, _>(SpecError::AssignmentToConstant(name@, *op_pos)), mid, left),
            ),
    {
    }

    /// An assignment to a property chain of a variable that is a constant is refused, and
    /// nothing is written.
    pub proof fn law_constant_refuses_chain_assignment(
        &self,
        expr: &Expr,
        scope: Seq<SpecBinding>,
        budget: nat,
    )
        requires
            expr matches Expr::Assignment(lhs, rhs, _) && (**lhs) matches Expr::Dot(root, _, _) && (
            *root) matches Expr::Variable(name, _) && self.meaning_expr(&**rhs, scope, budget)
                matches Some((Ok(_), mid, _)) && lookup(mid, name@) matches Some(index)
                && mid[index].kind == VariableType::Constant,
        ensures
            expr matches Expr::Assignment(lhs, rhs, op_pos) && (**lhs) matches Expr::Dot(
                root,
                _,
                _,
            ) && (*root) matches Expr::Variable(name, _) && self.meaning_expr(
                &**rhs,
                scope,
                budget,
            ) matches Some((_, mid, left)) && self.meaning_expr(expr, scope, budget) == Some(
                (Err::<SpecValue, _>(SpecError::AssignmentToConstant(name@, *op_pos)), mid, left),
            ),
    {
        match expr {
            Expr::Assignment(lhs, rhs, op_pos) => match **lhs {
                Expr::Dot(root, chain, _) => match *root {
                    Expr::Variable(name, pos) => {
                        self.law_expr_keeps(&**rhs, scope, budget);
                        match self.meaning_expr(&**rhs, scope, budget) {
                            Some((Ok(value), mid, left)) => {
                                lemma_lookup(mid, name@);
                                let refused = Some(
                                    (
                                        Err::<SpecValue, _>(
                                            SpecError::AssignmentToConstant(name@, *op_pos),
                                        ),
                                        mid,
                                        left,
                                    ),
                                );
                                assert(self.meaning_set_variable(
                                    name@,
                                    pos,
                                    &*chain,
                                    value,
                                    rhs.position(),
                                    *op_pos,
                                    mid,
                                    left,
                                ) == refused);
                                assert(self.meaning_set_dot(
                                    &*root,
                                    &*chain,
                                    value,
                                    rhs.position(),
                                    *op_pos,
                                    mid,
                                    left,
                                ) == refused);
                                assert(self.meaning_assignment(expr, scope, budget) == refused);
                            },
                            _ => {},
                        }
                    },
                    _ => {},
                },
                _ => {},
            },
            _ => {},
        }
    }

    /// An assignment to an element of a variable that is a constant is refused, and nothing
    /// is written: it ends in an error, in the scope that evaluating its operands left.
    pub proof fn law_constant_refuses_element_assignment(
        &self,
        expr: &Expr,
        scope: Seq<SpecBinding>,
        budget: nat,
    )
        requires
            expr matches Expr::Assignment(lhs, rhs, _) && (**lhs) matches Expr::Index(
                base,
                index,
                _,
            ) && (*base) matches Expr::Variable(name, _) && self.meaning_expr(
                &**rhs,
                scope,
                budget,
            ) matches Some((Ok(_), mid, b1)) && self.meaning_expr(
                &*index,
                mid,
                at_most(b1, budget),
            ) matches Some((_, after, _)) && only_constant(after, name@),
        ensures
            expr matches Expr::Assignment(lhs, rhs, _) && (**lhs) matches Expr::Index(_, index, _)
                && self.meaning_expr(&**rhs, scope, budget) matches Some((_, mid, b1))
                && self.meaning_expr(&*index, mid, at_most(b1, budget)) matches Some((_, after, _))
                && self.meaning_expr(expr, scope, budget) matches Some((result, last, _))
                && result is Err && last == after,
    {
        match expr {
            Expr::Assignment(lhs, rhs, _) => match **lhs {
                Expr::Index(base, index, idx_pos) => match *base {
                    Expr::Variable(name, _) => {
                        match self.meaning_expr(&**rhs, scope, budget) {
                            Some((Ok(_), mid, b1)) => {
                                match self.meaning_expr(&*index, mid, at_most(b1, budget)) {
                                    Some((_, after, _)) => {
                                        lemma_lookup(after, name@);
                                        assert(lhs.size() == 1 + base.size() + index.size());
                                        let resolved = self.meaning_index(
                                            &*base,
                                            &*index,
                                            idx_pos,
                                            mid,
                                            at_most(b1, budget),
                                        );
                                        assert(resolved matches Some((target, last, _)) && last
                                            == after && (target matches Ok(t) ==> t.root
                                            matches Some((_, kind, _)) && kind
                                            == VariableType::Constant));
                                    },
                                    None => {},
                                }
                            },
                            _ => {},
                        }
                    },
                    _ => {},
                },
                _ => {},
            },
            _ => {},
        }
    }

    /// `a[i] = a[i]` changes nothing: where `a` is a variable that holds an array or a string
    /// with the index `i`, the assignment ends in unit and leaves the scope as it was.
    pub proof fn law_self_assignment(&self, expr: &Expr, scope: Seq<SpecBinding>, budget: nat)
        requires
            expr matches Expr::Assignment(lhs, rhs, _) && (**lhs) matches Expr::Index(
                base,
                index,
                _,
            ) && (*base) matches Expr::Variable(name, _) && (*index) matches Expr::IntegerConstant(
                i,
                _,
            ) && (**rhs) matches Expr::Index(from, at, _) && (*from) matches Expr::Variable(same, _)
                && (*at) matches Expr::IntegerConstant(j, _) && lookup(scope, name@) matches Some(
                k,
            ) && same@ == name@ && i == j && scope[k].kind == VariableType::Normal && element_at(
                scope[k].value,
                i as int,
            ) is Some,
        ensures
            self.meaning_expr(expr, scope, budget) == Some(
                (Ok::<_, SpecError>(SpecValue::Unit), scope, budget),
            ),
    {
        match expr {
            Expr::Assignment(lhs, rhs, _) => match (**lhs, **rhs) {
                (Expr::Index(base, index, idx_pos), Expr::Index(from, at, at_pos)) => match (
                    *base,
                    *index,
                ) {
                    (Expr::Variable(name, _), Expr::IntegerConstant(i, _)) => {
                        lemma_lookup(scope, name@);
                        let k = lookup(scope, name@)->0;
                        let element = element_at(scope[k].value, i as int)->0;
                        let read = self.meaning_index(&*from, &*at, at_pos, scope, budget);
                        assert(self.meaning_expr(&*at, scope, budget) == Some(
                            (Ok::<_, SpecError>(SpecValue::Int(i as int)), scope, budget),
                        ));
                        assert(read matches Some((Ok(t), s, b)) && s == scope && b == budget
                            && t.value == element);
                        assert(self.meaning_expr(&**rhs, scope, budget) == Some(
                            (Ok::<_, SpecError>(element), scope, budget),
                        ));
                        let target = self.meaning_index(&*base, &*index, idx_pos, scope, budget);
                        assert(self.meaning_expr(&*index, scope, budget) == Some(
                            (Ok::<_, SpecError>(SpecValue::Int(i as int)), scope, budget),
                        ));
                        assert(target matches Some((Ok(t), s, b)) && t.root matches Some(
                            (_, kind, _),
                        ) && s == scope && b == budget && t.value == element && rooted(scope, t)
                            && kind == VariableType::Normal);
                        match target {
                            Some((Ok(t), _, _)) => {
                                law_assign_same_element(
                                    scope,
                                    t,
                                    base.position(),
                                    rhs.position(),
                                );
                            },
                            _ => {},
                        }
                        assert(lhs.size() == 1 + base.size() + index.size());
                        assert(self.meaning_assignment(expr, scope, budget) == Some(
                            (Ok::<_, SpecError>(SpecValue::Unit), scope, budget),
                        ));
                    },
                    _ => {},
                },
                _ => {},
            },
            _ => {},
        }
    }

    /// `lhs && rhs` is false where `lhs` is false, whatever `rhs` is: `rhs` is not evaluated,
    /// so the scope and the budget are those that `lhs` left.
    pub proof fn law_and_short_circuits(&self, expr: &Expr, scope: Seq<SpecBinding>, budget: nat)
        requires
            expr matches Expr::And(lhs, _) && self.meaning_expr(&**lhs, scope, budget)
                matches Some((Ok(value), _, _)) && value == SpecValue::Bool(false),
        ensures
            expr matches Expr::And(lhs, _) && self.meaning_expr(&**lhs, scope, budget)
                matches Some((_, mid, left)) && self.meaning_expr(expr, scope, budget) == Some(
                (Ok::<_, SpecError>(SpecValue::Bool(false)), mid, left),
            ),
    {
    }

    /// `lhs || rhs` is true where `lhs` is true, whatever `rhs` is: `rhs` is not evaluated,
    /// so the scope and the budget are those that `lhs` left.
    pub proof fn law_or_short_circuits(&self, expr: &Expr, scope: Seq<SpecBinding>, budget: nat)
        requires
            expr matches Expr::Or(lhs, _) && self.meaning_expr(&**lhs, scope, budget)
                matches Some((Ok(value), _, _)) && value == SpecValue::Bool(true),
        ensures
            expr matches Expr::Or(lhs, _) && self.meaning_expr(&**lhs, scope, budget)
                matches Some((_, mid, left)) && self.meaning_expr(expr, scope, budget) == Some(
                (Ok::<_, SpecError>(SpecValue::Bool(true)), mid, left),
            ),
    {
    }

    /// `lhs && rhs` goes by `rhs` where `lhs` is true, and `lhs || rhs` where `lhs` is
    /// false: the right operand is evaluated in the scope that the left one left, its
    /// error is the error of the whole, and its value must be a boolean.
    pub proof fn law_logic_reaches_right(&self, expr: &Expr, scope: Seq<SpecBinding>, budget: nat)
        requires
            match expr {
                Expr::And(lhs, _) => self.meaning_expr(&**lhs, scope, budget) matches Some(
                    (Ok(value), _, _),
                ) && value == SpecValue::Bool(true),
                Expr::Or(lhs, _) => self.meaning_expr(&**lhs, scope, budget) matches Some(
                    (Ok(value), _, _),
                ) && value == SpecValue::Bool(false),
                _ => false,
            },
        ensures
            match expr {
                Expr::And(lhs, rhs) => self.meaning_expr(&**lhs, scope, budget) matches Some(
                    (_, mid, b1),
                ) && self.meaning_expr(expr, scope, budget) == match self.meaning_expr(
                    &**rhs,
                    mid,
                    at_most(b1, budget),
                ) {
                    Some((right, after, left)) => Some(
                        (operand_outcome(right, operator_text(true), rhs.position()), after, left),
                    ),
                    None => None,
                },
                Expr::Or(lhs, rhs) => self.meaning_expr(&**lhs, scope, budget) matches Some(
                    (_, mid, b1),
                ) && self.meaning_expr(expr, scope, budget) == match self.meaning_expr(
                    &**rhs,
                    mid,
                    at_most(b1, budget),
                ) {
                    Some((right, after, left)) => Some(
                        (operand_outcome(right, operator_text(false), rhs.position()), after, left),
                    ),
                    None => None,
                },
                _ => true,
            },
    {
        assert(self.meaning_expr(expr, scope, budget) == self.meaning_logic(expr, scope, budget));
    }

    /// An `if` goes by its guard: an error of the guard is the error of the statement, a
    /// guard that is no boolean is an error, a true guard runs the first branch and a
    /// false one the second, or gives unit where there is none.
    pub proof fn law_if_follows_guard(&self, stmt: &Stmt, scope: Seq<SpecBinding>, budget: nat)
        requires
            stmt matches Stmt::IfElse(guard, _, _) && self.meaning_expr(&**guard, scope, budget)
                is Some,
        ensures
            stmt matches Stmt::IfElse(guard, body, other) && self.meaning_expr(
                &**guard,
                scope,
                budget,
            ) matches Some((result, mid, b1)) && self.meaning_stmt(stmt, scope, budget) == match result {
                Ok(SpecValue::Bool(true)) => self.meaning_stmt(&**body, mid, at_most(b1, budget)),
                Ok(SpecValue::Bool(false)) => match other {
                    Some(branch) => self.meaning_stmt(&**branch, mid, at_most(b1, budget)),
                    None => Some((Ok(SpecValue::Unit), mid, b1)),
                },
                Ok(_) => Some((Err(SpecError::IfGuard(guard.position())), mid, b1)),
                Err(error) => Some((Err(error), mid, b1)),
            },
    {
        assert(self.meaning_stmt(stmt, scope, budget) == self.meaning_if(stmt, scope, budget));
    }

    /// A script function is found before any native function: where the table of script
    /// functions holds the name with the arity of the call, the call resolves to it,
    /// whatever the host registered.
    pub proof fn law_script_overrides_native(
        &self,
        name: Seq<char>,
        args: Seq<SpecValue>,
        has_default: bool,
    )
        requires
            script_index(self.scripts(), name, args.len() as int) is Some,
        ensures
            self.spec_resolve(name, type_ids(args), has_default) == Target::Script(
                script_index(self.scripts(), name, args.len() as int)->0 as usize,
            ),
    {
    }

    /// What a call resolves to hangs on the name and on the types of the arguments alone:
    /// two calls of one name with arguments of the same types resolve to the same function.
    pub proof fn law_dispatch_by_types(
        &self,
        name: Seq<char>,
        first: Seq<SpecValue>,
        second: Seq<SpecValue>,
        has_default: bool,
    )
        requires
            type_ids(first) == type_ids(second),
        ensures
            self.spec_resolve(name, type_ids(first), has_default) == self.spec_resolve(
                name,
                type_ids(second),
                has_default,
            ),
    {
    }

    /// A `break` that no loop catches passes the block it stands in: the block ends in the
    /// signal, and is cut back to its length like every block.
    pub proof fn law_break_passes_block(&self, block: &Stmt, scope: Seq<SpecBinding>, budget: nat)
        requires
            block matches Stmt::Block(stmts, _) && self.meaning_stmts(
                stmts@,
                0,
                scope,
                budget,
                SpecValue::Unit,
            ) matches Some((Err(error), _, _)) && error is LoopBreak,
        ensures
            self.meaning_stmt(block, scope, budget) matches Some((Err(error), after, _))
                && error is LoopBreak && after.len() == scope.len(),
    {
        self.law_stmt_keeps(block, scope, budget);
    }

    /// A `break` statement raises the signal of `break`.
    pub proof fn law_break_raises(&self, stmt: &Stmt, scope: Seq<SpecBinding>, budget: nat)
        requires
            stmt is Break,
        ensures
            self.meaning_stmt(stmt, scope, budget) == Some(
                (Err::<SpecValue, _>(SpecError::LoopBreak(stmt->Break_0)), scope, budget),
            ),
    {
    }

    /// A `break` in the body of a `loop` ends the loop with unit.
    pub proof fn law_break_ends_loop(&self, stmt: &Stmt, scope: Seq<SpecBinding>, budget: nat)
        requires
            budget > 0,
            stmt matches Stmt::Loop(body) && self.meaning_stmt(
                &**body,
                scope,
                (budget - 1) as nat,
            ) matches Some((Err(error), _, _)) && error is LoopBreak,
        ensures
            stmt matches Stmt::Loop(body) && self.meaning_stmt(
                &**body,
                scope,
                (budget - 1) as nat,
            ) matches Some((_, after, left)) && self.meaning_stmt(stmt, scope, budget) == Some(
                (Ok::<_, SpecError>(SpecValue::Unit), after, left),
            ),
    {
        match stmt {
            Stmt::Loop(body) => {
                assert(self.meaning_stmt(stmt, scope, budget) == self.meaning_loop(
                    body,
                    scope,
                    budget,
                ));
            },
            _ => {},
        }
    }

    /// A `break` in the body of a `while` ends the loop with unit.
    pub proof fn law_break_ends_while(&self, stmt: &Stmt, scope: Seq<SpecBinding>, budget: nat)
        requires
            budget > 0,
            stmt matches Stmt::While(guard, body) && self.meaning_expr(
                &**guard,
                scope,
                (budget - 1) as nat,
            ) matches Some((Ok(value), mid, b1)) && self.meaning_stmt(
                &**body,
                mid,
                at_most(b1, (budget - 1) as nat),
            ) matches Some((Err(error), _, _)) && value == SpecValue::Bool(true)
                && error is LoopBreak,
        ensures
            stmt matches Stmt::While(guard, body) && self.meaning_expr(
                &**guard,
                scope,
                (budget - 1) as nat,
            ) matches Some((_, mid, b1)) && self.meaning_stmt(
                &**body,
                mid,
                at_most(b1, (budget - 1) as nat),
            ) matches Some((_, after, left)) && self.meaning_stmt(stmt, scope, budget) == Some(
                (Ok::<_, SpecError>(SpecValue::Unit), after, left),
            ),
    {
        match stmt {
            Stmt::While(guard, body) => {
                assert(self.meaning_stmt(stmt, scope, budget) == self.meaning_while(
                    guard,
                    body,
                    scope,
                    budget,
                ));
            },
            _ => {},
        }
    }

    /// A `break` in the body of a `for` ends the loop with unit, and the loop variable is
    /// taken off the scope.
    pub proof fn law_break_ends_for(
        &self,
        items: Seq<SpecValue>,
        from: int,
        idx: int,
        body: &Stmt,
        scope: Seq<SpecBinding>,
        budget: nat,
    )
        requires
            0 <= from < items.len(),
            budget > 0,
            self.meaning_stmt(body, with_value(scope, idx, items[from]), (budget - 1) as nat)
                matches Some((Err(error), _, _)) && error is LoopBreak,
        ensures
            self.meaning_stmt(body, with_value(scope, idx, items[from]), (budget - 1) as nat)
                matches Some((_, after, left)) && self.meaning_for_items(
                items,
                from,
                idx,
                body,
                scope,
                budget,
            ) == Some((Ok::<_, SpecError>(SpecValue::Unit), after.drop_last(), left)),
    {
    }

    /// An error in the body of a `for` ends the loop with that error: the items that are
    /// left are not walked, and the newest binding is taken off the scope.
    pub proof fn law_error_ends_for(
        &self,
        items: Seq<SpecValue>,
        from: int,
        idx: int,
        body: &Stmt,
        scope: Seq<SpecBinding>,
        budget: nat,
    )
        requires
            0 <= from < items.len(),
            budget > 0,
            self.meaning_stmt(body, with_value(scope, idx, items[from]), (budget - 1) as nat)
                matches Some((Err(error), _, _)) && !(error is LoopBreak),
        ensures
            self.meaning_stmt(body, with_value(scope, idx, items[from]), (budget - 1) as nat)
                matches Some((result, after, left)) && self.meaning_for_items(
                items,
                from,
                idx,
                body,
                scope,
                budget,
            ) == Some((result, after.drop_last(), left)),
    {
    }

    /// However a `for` loop over a block ends, in unit, in a `break` or in an error, its
    /// variable has left the scope: the scope is as long as it was before the variable was
    /// bound.
    pub proof fn law_for_drops_variable(
        &self,
        items: Seq<SpecValue>,
        from: int,
        idx: int,
        body: &Stmt,
        scope: Seq<SpecBinding>,
        budget: nat,
    )
        requires
            body is Block,
            0 <= idx == scope.len() - 1,
        ensures
            self.meaning_for_items(items, from, idx, body, scope, budget) matches Some(
                (_, after, _),
            ) ==> after.len() == idx,
        decreases budget,
    {
        if 0 <= from < items.len() && budget > 0 {
            let rest = (budget - 1) as nat;
            let bound = with_value(scope, idx, items[from]);
            self.law_block_keeps_length(body, bound, rest);
            match self.meaning_stmt(body, bound, rest) {
                Some((Ok(_), after, left)) => {
                    self.law_for_drops_variable(
                        items,
                        from + 1,
                        idx,
                        body,
                        after,
                        at_most(left, rest),
                    );
                },
                _ => {},
            }
        }
    }

    /// The name of a getter or of a setter is neither `print` nor `debug`, so the value of
    /// the function behind it is handed on as it is.
    pub proof fn law_accessor_value(id: Seq<char>, result: Result<SpecValue, SpecError>)
        ensures
            finished(getter_name(id), result) == result,
            finished(setter_name(id), result) == result,
    {
        reveal_strlit("get$");
        reveal_strlit("set$");
        reveal_strlit("print");
        reveal_strlit("debug");
        assert(getter_name(id)[0] == 'g');
        assert(setter_name(id)[0] == 's');
        assert(KEYWORD_PRINT@[0] == 'p');
        assert(KEYWORD_DEBUG@[0] == 'd');
    }

    /// `x.chain = E` evaluates `E` first and then assigns to the chain of the variable in
    /// the scope that `E` left; an error of `E` is the error of the whole. Reading
    /// `x.chain` is reading the chain of the variable.
    pub proof fn law_chain_on_variable(&self, expr: &Expr, scope: Seq<SpecBinding>, budget: nat)
        requires
            match expr {
                Expr::Assignment(lhs, _, _) => (**lhs) matches Expr::Dot(root, _, _) && (
                *root) is Variable,
                Expr::Dot(root, _, _) => (**root) is Variable,
                _ => false,
            },
        ensures
            match expr {
                Expr::Assignment(lhs, rhs, op_pos) => (**lhs) matches Expr::Dot(root, chain, _) && (
                *root) matches Expr::Variable(id, pos) && self.meaning_expr(expr, scope, budget)
                    == match self.meaning_expr(&**rhs, scope, budget) {
                    Some((Ok(value), mid, b1)) => self.meaning_set_variable(
                        id@,
                        pos,
                        &*chain,
                        value,
                        rhs.position(),
                        *op_pos,
                        mid,
                        at_most(b1, budget),
                    ),
                    other => other,
                },
                Expr::Dot(root, chain, _) => (**root) matches Expr::Variable(id, pos)
                    && self.meaning_expr(expr, scope, budget) == self.meaning_get_variable(
                    id@,
                    pos,
                    &**chain,
                    scope,
                    budget,
                ),
                _ => true,
            },
    {
        match expr {
            Expr::Assignment(lhs, rhs, op_pos) => match **lhs {
                Expr::Dot(root, chain, _) => {
                    assert(self.meaning_expr(expr, scope, budget) == self.meaning_assignment(
                        expr,
                        scope,
                        budget,
                    ));
                    match self.meaning_expr(&**rhs, scope, budget) {
                        Some((Ok(value), mid, b1)) => {
                            assert(self.meaning_assignment(expr, scope, budget)
                                == self.meaning_set_dot(
                                &*root,
                                &*chain,
                                value,
                                rhs.position(),
                                *op_pos,
                                mid,
                                at_most(b1, budget),
                            ));
                        },
                        _ => {},
                    }
                },
                _ => {},
            },
            Expr::Dot(root, chain, _) => {
                assert(self.meaning_expr(expr, scope, budget) == self.meaning_get_dot(
                    &**root,
                    &**chain,
                    scope,
                    budget,
                ));
            },
            _ => {},
        }
    }

    /// What a native setter does to its first argument reaches the variable. Where `id` is
    /// a variable that is no constant, and the setter of the property `p` for its value is
    /// a native function that says what it does, `id.p = value` ends in what the setter
    /// ends in. Where that is no error the variable holds what the setter left in its first
    /// argument, and no other binding has changed; where it is an error nothing has
    /// changed.
    pub proof fn law_setter_reaches_variable(
        &self,
        id: Seq<char>,
        pos: Position,
        chain: &Expr,
        value: SpecValue,
        val_pos: Position,
        op_pos: Position,
        scope: Seq<SpecBinding>,
        budget: nat,
        n: usize,
    )
        requires
            chain matches Expr::Property(p, at) && found(scope, id, pos) matches Ok(
                (_, kind, target),
            ) && kind == VariableType::Normal && self.spec_resolve(
                setter_name(p@),
                type_ids(seq![target, value]),
                false,
            ) == Target::Native(n) && n < self.native_functions().len()
                && self.native_functions()[n as int].model(seq![target, value], *at) is Some,
        ensures
            chain matches Expr::Property(p, at) && found(scope, id, pos) matches Ok(
                (src_idx, _, target),
            ) && self.native_functions()[n as int].model(seq![target, value], *at) matches Some(
                (out, left),
            ) && self.meaning_set_variable(id, pos, chain, value, val_pos, op_pos, scope, budget)
                == Some(
                (
                    out,
                    match out {
                        Ok(_) => with_value(scope, src_idx, first_of(left)),
                        Err(_) => scope,
                    },
                    budget,
                ),
            ),
    {
        match chain {
            Expr::Property(p, at) => {
                match found(scope, id, pos) {
                    Ok((src_idx, _, target)) => {
                        let (out, left) = self.native_functions()[n as int].model(
                            seq![target, value],
                            *at,
                        )->0;
                        Self::law_accessor_value(p@, out);
                        assert(self.meaning_setter(target, p@, value, *at, budget) == Some(
                            (out, first_of(left), budget),
                        ));
                    },
                    _ => {},
                }
            },
            _ => {},
        }
    }

    /// What a native setter does to its first argument reaches the element. Where
    /// `base[index]` resolves to an element, and the setter of the property `p` for it is a
    /// native function that says what it does, `base[index].p = value` stores what the
    /// setter left in its first argument as [`Engine::stored_element`] says: in the place
    /// of the element where the root is a variable and the setter succeeded, and nowhere
    /// else.
    pub proof fn law_setter_reaches_element(
        &self,
        base: &Expr,
        index: &Expr,
        idx_pos: Position,
        chain: &Expr,
        value: SpecValue,
        val_pos: Position,
        scope: Seq<SpecBinding>,
        budget: nat,
        n: usize,
    )
        requires
            chain matches Expr::Property(p, at) && self.meaning_index(
                base,
                index,
                idx_pos,
                scope,
                budget,
            ) matches Some((Ok(target), _, _)) && self.spec_resolve(
                setter_name(p@),
                type_ids(seq![target.value, value]),
                false,
            ) == Target::Native(n) && n < self.native_functions().len()
                && self.native_functions()[n as int].model(seq![target.value, value], *at)
                is Some,
        ensures
            chain matches Expr::Property(p, at) && self.meaning_index(
                base,
                index,
                idx_pos,
                scope,
                budget,
            ) matches Some((Ok(target), mid, b1)) && self.native_functions()[n as int].model(
                seq![target.value, value],
                *at,
            ) matches Some((out, left)) && self.meaning_set_element(
                base,
                index,
                idx_pos,
                chain,
                value,
                val_pos,
                scope,
                budget,
            ) == ({
                let stored = self.stored_element(
                    target.source,
                    target.root,
                    target.index,
                    first_of(left),
                    out,
                    mid,
                    base.position(),
                    val_pos,
                );
                Some((stored.0, stored.1, at_most(b1, budget)))
            }),
    {
        match chain {
            Expr::Property(p, at) => {
                match self.meaning_index(base, index, idx_pos, scope, budget) {
                    Some((Ok(target), mid, b1)) => {
                        let (out, left) = self.native_functions()[n as int].model(
                            seq![target.value, value],
                            *at,
                        )->0;
                        Self::law_accessor_value(p@, out);
                        assert(self.meaning_setter(
                            target.value,
                            p@,
                            value,
                            *at,
                            at_most(b1, budget),
                        ) == Some((out, first_of(left), at_most(b1, budget))));
                    },
                    _ => {},
                }
            },
            _ => {},
        }
    }

    /// What a native method does to its first argument reaches the variable. Where `id` is
    /// a variable, the arguments of the call have been evaluated, and the function that the
    /// call finds for them is a native function that says what it does, `id.name(args)`
    /// ends in what the function ends in. Where that is no error the variable holds what
    /// the function left in its first argument, and nothing else but what the arguments did
    /// has changed.
    pub proof fn law_method_reaches_variable(
        &self,
        id: Seq<char>,
        pos: Position,
        call: &Expr,
        scope: Seq<SpecBinding>,
        budget: nat,
        n: usize,
    )
        requires
            call matches Expr::FunctionCall(name, args, default, at) && found(scope, id, pos)
                matches Ok((_, _, target)) && self.meaning_items(
                args@,
                0,
                scope,
                budget,
                Seq::empty(),
            ) matches Some((Ok(values), _, _)) && self.spec_resolve(
                name@,
                type_ids(seq![target] + values),
                default is Some,
            ) == Target::Native(n) && n < self.native_functions().len()
                && self.native_functions()[n as int].model(seq![target] + values, *at) is Some,
        ensures
            call matches Expr::FunctionCall(name, args, _, at) && found(scope, id, pos) matches Ok(
                (src_idx, _, target),
            ) && self.meaning_items(args@, 0, scope, budget, Seq::empty()) matches Some(
                (Ok(values), mid, b1),
            ) && self.native_functions()[n as int].model(seq![target] + values, *at) matches Some(
                (out, left),
            ) && self.meaning_get_variable(id, pos, call, scope, budget) == Some(
                (
                    finished(name@, out),
                    match out {
                        Ok(_) => with_value(mid, src_idx, first_of(left)),
                        Err(_) => mid,
                    },
                    at_most(b1, budget),
                ),
            ),
    {
        match call {
            Expr::FunctionCall(name, args, default, at) => {
                match found(scope, id, pos) {
                    Ok((src_idx, _, target)) => {
                        assert(self.meaning_get_helper(target, call, scope, budget)
                            == self.meaning_get_call(target, call, scope, budget));
                    },
                    _ => {},
                }
            },
            _ => {},
        }
    }

    /// A property that was assigned to reads as what was assigned, with a faithful host.
    /// Where `id` is a variable that is no constant, setting its property `p` to `value`
    /// succeeds, and the getter of `p` gives `value` for what the setter left and leaves
    /// it as it is, then after `id.p = value` reading `id.p` gives `value` and changes
    /// nothing.
    pub proof fn law_read_after_write(
        &self,
        id: Seq<char>,
        pos: Position,
        chain: &Expr,
        value: SpecValue,
        val_pos: Position,
        op_pos: Position,
        scope: Seq<SpecBinding>,
        budget: nat,
    )
        requires
            chain matches Expr::Property(p, at) && found(scope, id, pos) matches Ok(
                (_, kind, target),
            ) && self.meaning_setter(target, p@, value, *at, budget) matches Some(
                (Ok(_), changed, left),
            ) && self.meaning_getter(changed, p@, *at, left) matches Some((Ok(read), same, _))
                && kind == VariableType::Normal && read == value && same == changed,
        ensures
            self.meaning_set_variable(id, pos, chain, value, val_pos, op_pos, scope, budget)
                matches Some((Ok(_), after, left)) && self.meaning_get_variable(
                id,
                pos,
                chain,
                after,
                left,
            ) matches Some((result, last, _)) && result == Ok::<_, SpecError>(value) && last
                == after,
    {
        match chain {
            Expr::Property(p, at) => {
                match found(scope, id, pos) {
                    Ok((src_idx, _, target)) => {
                        lemma_lookup(scope, id);
                        match self.meaning_setter(target, p@, value, *at, budget) {
                            Some((Ok(_), changed, left)) => {
                                let after = with_value(scope, src_idx, changed);
                                law_lookup_by_names(scope, after, id);
                                assert(found(after, id, pos) == Ok::<_, SpecError>(
                                    (src_idx, VariableType::Normal, changed),
                                ));
                                assert(with_value(after, src_idx, changed) =~= after);
                            },
                            _ => {},
                        }
                    },
                    _ => {},
                }
            },
            _ => {},
        }
    }

    /// A constant refuses a chain on one of its elements, whatever the chain ends in.
    /// Where `base[index]` resolves to an element of a constant, reading `base[index].chain`
    /// and assigning to it both end in the error that names the constant, at the place of
    /// `base`, and store nothing.
    pub proof fn law_constant_element_refuses_chain(
        &self,
        base: &Expr,
        index: &Expr,
        idx_pos: Position,
        chain: &Expr,
        value: SpecValue,
        val_pos: Position,
        scope: Seq<SpecBinding>,
        budget: nat,
    )
        requires
            self.meaning_index(base, index, idx_pos, scope, budget) matches Some(
                (Ok(target), _, _),
            ) && target.root matches Some((_, kind, _)) && kind == VariableType::Constant,
        ensures
            self.meaning_index(base, index, idx_pos, scope, budget) matches Some(
                (Ok(target), mid, b1),
            ) && target.root matches Some((name, _, _)) && (self.meaning_get_helper(
                target.value,
                chain,
                mid,
                at_most(b1, budget),
            ) matches Some((_, _, after, left)) ==> self.meaning_get_element(
                base,
                index,
                idx_pos,
                chain,
                scope,
                budget,
            ) == Some(
                (
                    Err::<SpecValue, _>(SpecError::AssignmentToConstant(name, base.position())),
                    after,
                    left,
                ),
            )) && (self.meaning_set_helper(
                target.value,
                chain,
                value,
                val_pos,
                mid,
                at_most(b1, budget),
            ) matches Some((_, _, after, left)) ==> self.meaning_set_element(
                base,
                index,
                idx_pos,
                chain,
                value,
                val_pos,
                scope,
                budget,
            ) == Some(
                (
                    Err::<SpecValue, _>(SpecError::AssignmentToConstant(name, base.position())),
                    after,
                    left,
                ),
            )),
    {
    }

    /// `type_of(v)` is the pretty name of the type of `v` where one is registered, else the
    /// raw name of the type, unless a function of the script or of the host takes the call.
    /// It hangs on the engine and on the value alone.
    pub proof fn law_type_of(&self, value: SpecValue, pos: Position, budget: nat)
        requires
            script_index(self.scripts(), KEYWORD_TYPE_OF@, 1) is None,
            native_index(self.native_keys(), call_key(KEYWORD_TYPE_OF@, seq![value.type_id()]))
                is None,
        ensures
            self.meaning_call(KEYWORD_TYPE_OF@, seq![value], None, pos, budget) == Some(
                (Ok::<_, SpecError>(SpecValue::Str(self.pretty(value.raw_name()))), seq![value], budget),
            ),
            self.pretty_names().contains_key(value.raw_name()) ==> self.pretty(value.raw_name())
                == self.pretty_names()[value.raw_name()],
            !self.pretty_names().contains_key(value.raw_name()) ==> self.pretty(value.raw_name())
                == value.raw_name(),
    {
        assert(type_ids(seq![value]) =~= seq![value.type_id()]);
    }
}

} // verus!
