//! Dot chains: `a.b.c[i].d` read, and the same assigned to. The resolver works on a copy
//! of the root, walks the chain through getters and setters, and writes the root back to
//! the scope once, at the end, and only where nothing failed.

use crate::ast::{Expr, Position};
use crate::engine::{Engine, NativeFunction, OutputSink, TypeIterator, FUNC_GETTER, FUNC_SETTER};
use crate::error::{outcome, EvalAltResult, SpecError};
use crate::eval::{agrees, agrees_this, kept, root_view};
use crate::index::IndexSourceType;
use crate::meaning::{first_of, stored_root};
use crate::scope::{
    extends, lemma_not_only_constant, lookup, only_constant, with_value, Scope, VariableType,
};
use crate::value::{views, SpecValue, Value};
use vstd::pervasive::unreached;
use vstd::prelude::*;
use vstd::string::*;

verus! {

broadcast use crate::value::group_views;

/// The name of the function that reads a property.
pub open spec fn getter_name(id: Seq<char>) -> Seq<char> {
    FUNC_GETTER@ + id
}

/// The name of the function that writes a property.
pub open spec fn setter_name(id: Seq<char>) -> Seq<char> {
    FUNC_SETTER@ + id
}

/// The name of the function that reads the property `id`.
pub fn make_getter(id: &str) -> (r: String)
    ensures
        r@ == getter_name(id@),
{
    let mut name = FUNC_GETTER.to_string();
    name.append(id);
    name
}

/// The name of the function that writes the property `id`.
pub fn make_setter(id: &str) -> (r: String)
    ensures
        r@ == setter_name(id@),
{
    let mut name = FUNC_SETTER.to_string();
    name.append(id);
    name
}

/// The arguments of a call on `this`: the value of `this` first, then `rest`. The value is
/// moved into the arguments, and `this` holds unit until it is taken back.
pub fn arguments_with_this(this: &mut Value, rest: Vec<Value>) -> (args: Vec<Value>)
    ensures
        views(args@) == seq![old(this)@] + views(rest@),
        final(this)@ == SpecValue::Unit,
{
    let mut args: Vec<Value> = Vec::new();
    let mut taken = Value::Unit;
    core::mem::swap(this, &mut taken);
    args.push(taken);
    let ghost others = rest@;
    let mut rest = rest;
    args.append(&mut rest);
    proof {
        assert(views(args@) =~= seq![old(this)@] + views(others));
    }
    args
}

/// Takes `this` back from the first place of the arguments of a call: what the function
/// did to its first argument is what `this` holds afterwards.
pub fn take_this_back(this: &mut Value, args: &mut Vec<Value>)
    ensures
        old(args)@.len() > 0 ==> final(this)@ == old(args)@[0]@,
        old(args)@.len() == 0 ==> final(this)@ == old(this)@,
{
    if args.len() > 0 {
        core::mem::swap(this, &mut args[0]);
    }
}

impl<F: NativeFunction, I: TypeIterator, S: OutputSink> Engine<F, I, S> {
    /// Calls a function with `this` as its first argument and `rest` after it. What the
    /// function did to its first argument is what `this` holds afterwards.
    pub fn call_with_this(
        &self,
        fn_name: &str,
        this: &mut Value,
        rest: Vec<Value>,
        def_val: Option<&Value>,
        pos: Position,
        budget: &mut u64,
    ) -> (r: Result<Value, EvalAltResult>)
        requires
            self.well_formed(),
        ensures
            *final(budget) <= *old(budget),
            self.meaning_call(
                fn_name@,
                seq![old(this)@] + views(rest@),
                match def_val {
                    Some(value) => Some(value@),
                    None => None,
                },
                pos,
                *old(budget) as nat,
            ) matches Some((o, after, left)) ==> outcome(r) == o && final(this)@ == first_of(after)
                && *final(budget) == left,
        decreases *old(budget), 0nat, 1nat,
    {
        let mut args = arguments_with_this(this, rest);
        let r = self.call_fn_raw(fn_name, &mut args, def_val, pos, budget);
        take_this_back(this, &mut args);
        r
    }

    /// Reads the property `id` of `this` through its getter.
    pub fn call_getter(&self, this: &mut Value, id: &str, pos: Position, budget: &mut u64) -> (r:
        Result<Value, EvalAltResult>)
        requires
            self.well_formed(),
        ensures
            *final(budget) <= *old(budget),
            self.meaning_getter(old(this)@, id@, pos, *old(budget) as nat) matches Some(
                (o, t, left),
            ) ==> outcome(r) == o && final(this)@ == t && *final(budget) == left,
        decreases *old(budget), 0nat, 2nat,
    {
        let name = make_getter(id);
        proof {
            assert(seq![old(this)@] + views(Seq::<Value>::empty()) =~= seq![old(this)@]);
        }
        self.call_with_this(name.as_str(), this, Vec::new(), None, pos, budget)
    }

    /// Writes the property `id` of `this` through its setter.
    pub fn call_setter(
        &self,
        this: &mut Value,
        id: &str,
        value: Value,
        pos: Position,
        budget: &mut u64,
    ) -> (r: Result<Value, EvalAltResult>)
        requires
            self.well_formed(),
        ensures
            *final(budget) <= *old(budget),
            self.meaning_setter(old(this)@, id@, value@, pos, *old(budget) as nat)
                matches Some((o, t, left)) ==> outcome(r) == o && final(this)@ == t
                && *final(budget) == left,
        decreases *old(budget), 0nat, 2nat,
    {
        let name = make_setter(id);
        let mut rest: Vec<Value> = Vec::new();
        rest.push(value);
        proof {
            assert(seq![old(this)@] + views(rest@) =~= seq![old(this)@, value@]);
        }
        self.call_with_this(name.as_str(), this, rest, None, pos, budget)
    }

    /// Calls the method of a chain: `this.name(args)`. The arguments are evaluated from
    /// left to right, and the function is called with `this` before them.
    pub fn get_dot_call(
        &self,
        scope: &mut Scope,
        this: &mut Value,
        call: &Expr,
        budget: &mut u64,
    ) -> (r: Result<Value, EvalAltResult>)
        requires
            self.well_formed(),
            call is FunctionCall,
            call.read_chain_ok(),
        ensures
            kept(old(scope)@, final(scope)@, *old(budget), *final(budget)),
            call.scoped() ==> final(scope)@.len() == old(scope)@.len(),
            agrees_this(
                self.meaning_get_call(old(this)@, call, old(scope)@, *old(budget) as nat),
                r,
                final(scope)@,
                *final(budget),
                final(this)@,
            ),
        decreases *old(budget), call.size(), 0nat,
    {
        match call {
            Expr::FunctionCall(fn_name, arg_expr_list, def_val, pos) => {
                let values = self.eval_exprs(scope, arg_expr_list, budget)?;
                self.call_with_this(
                    fn_name.as_str(),
                    this,
                    values,
                    match def_val {
                        Some(value) => Some(value),
                        None => None,
                    },
                    *pos,
                    budget,
                )
            },
            _ => unreached(),
        }
    }

    /// The container that `this.lhs[..]` indexes into: a property of `this`, or the element
    /// of a deeper index. Any other shape is no dot chain.
    pub fn get_dot_base(
        &self,
        scope: &mut Scope,
        this: &mut Value,
        lhs: &Expr,
        err_pos: Position,
        budget: &mut u64,
    ) -> (r: Result<Value, EvalAltResult>)
        requires
            self.well_formed(),
            lhs is Index ==> lhs.read_chain_ok(),
        ensures
            kept(old(scope)@, final(scope)@, *old(budget), *final(budget)),
            lhs.scoped() ==> final(scope)@.len() == old(scope)@.len(),
            r is Ok ==> lhs is Property || lhs is Index,
            agrees_this(
                self.meaning_get_base(old(this)@, lhs, err_pos, old(scope)@, *old(budget) as nat),
                r,
                final(scope)@,
                *final(budget),
                final(this)@,
            ),
        decreases *old(budget), lhs.size(), 2nat,
    {
        match lhs {
            Expr::Property(id, pos) => self.call_getter(this, id.as_str(), *pos, budget),
            Expr::Index(_, _, _) => self.get_dot_val_helper(scope, this, lhs, budget),
            _ => Err(EvalAltResult::ErrorDotExpr(String::new(), err_pos)),
        }
    }

    /// The element of a container at hand, at the index that `idx_expr` evaluates to.
    pub fn get_element(
        &self,
        scope: &mut Scope,
        container: &Value,
        idx_expr: &Expr,
        idx_pos: Position,
        budget: &mut u64,
    ) -> (r: Result<Value, EvalAltResult>)
        requires
            self.well_formed(),
            idx_expr.evaluable(),
        ensures
            kept(old(scope)@, final(scope)@, *old(budget), *final(budget)),
            idx_expr.scoped() ==> final(scope)@.len() == old(scope)@.len(),
            agrees(
                self.meaning_element(
                    container@,
                    idx_expr,
                    idx_pos,
                    old(scope)@,
                    *old(budget) as nat,
                ),
                r,
                final(scope)@,
                *final(budget),
            ),
        decreases *old(budget), idx_expr.size(), 3nat,
    {
        let idx = self.eval_index_value(scope, idx_expr, budget)?;
        match self.get_indexed_value(container, idx, idx_expr.position(), idx_pos) {
            Ok((value, _)) => Ok(value),
            Err(error) => Err(error),
        }
    }

    /// Reads `this.lhs[idx_expr]` on the right of a dot.
    pub fn get_dot_indexed(
        &self,
        scope: &mut Scope,
        this: &mut Value,
        lhs: &Expr,
        idx_expr: &Expr,
        idx_pos: Position,
        err_pos: Position,
        budget: &mut u64,
    ) -> (r: Result<Value, EvalAltResult>)
        requires
            self.well_formed(),
            lhs is Index ==> lhs.read_chain_ok(),
            lhs is Index || lhs is Property ==> idx_expr.evaluable(),
        ensures
            kept(old(scope)@, final(scope)@, *old(budget), *final(budget)),
            r is Ok ==> lhs is Property || lhs is Index,
            lhs.scoped() && idx_expr.scoped() ==> final(scope)@.len() == old(scope)@.len(),
            agrees_this(
                self.meaning_get_indexed(
                    old(this)@,
                    lhs,
                    idx_expr,
                    idx_pos,
                    err_pos,
                    old(scope)@,
                    *old(budget) as nat,
                ),
                r,
                final(scope)@,
                *final(budget),
                final(this)@,
            ),
        decreases *old(budget), 1 + lhs.size() + idx_expr.size(), 0nat,
    {
        let container = self.get_dot_base(scope, this, lhs, err_pos, budget)?;
        self.get_element(scope, &container, idx_expr, idx_pos, budget)
    }

    /// Reads `this.id.rest`: the property is read, and the rest of the chain is read of its
    /// value.
    pub fn get_dot_property_then(
        &self,
        scope: &mut Scope,
        this: &mut Value,
        id: &str,
        pos: Position,
        rest: &Expr,
        budget: &mut u64,
    ) -> (r: Result<Value, EvalAltResult>)
        requires
            self.well_formed(),
            rest.read_chain_ok(),
        ensures
            kept(old(scope)@, final(scope)@, *old(budget), *final(budget)),
            rest.plain_chain() ==> final(scope)@ == old(scope)@,
            rest.scoped() ==> final(scope)@.len() == old(scope)@.len(),
            agrees_this(
                self.meaning_get_property_then(
                    old(this)@,
                    id@,
                    pos,
                    rest,
                    old(scope)@,
                    *old(budget) as nat,
                ),
                r,
                final(scope)@,
                *final(budget),
                final(this)@,
            ),
        decreases *old(budget), 1 + rest.size(), 0nat,
    {
        let mut value = self.call_getter(this, id, pos, budget)?;
        self.get_dot_val_helper(scope, &mut value, rest, budget)
    }

    /// Reads `this.lhs[idx_expr].rest`: the element is read, and the rest of the chain is
    /// read of it.
    pub fn get_dot_indexed_then(
        &self,
        scope: &mut Scope,
        this: &mut Value,
        lhs: &Expr,
        idx_expr: &Expr,
        idx_pos: Position,
        err_pos: Position,
        rest: &Expr,
        budget: &mut u64,
    ) -> (r: Result<Value, EvalAltResult>)
        requires
            self.well_formed(),
            lhs is Index ==> lhs.read_chain_ok(),
            lhs is Index || lhs is Property ==> idx_expr.evaluable() && rest.read_chain_ok(),
        ensures
            kept(old(scope)@, final(scope)@, *old(budget), *final(budget)),
            lhs.scoped() && idx_expr.scoped() && rest.scoped() ==> final(scope)@.len() == old(
                scope,
            )@.len(),
            agrees_this(
                self.meaning_get_indexed_then(
                    old(this)@,
                    lhs,
                    idx_expr,
                    idx_pos,
                    err_pos,
                    rest,
                    old(scope)@,
                    *old(budget) as nat,
                ),
                r,
                final(scope)@,
                *final(budget),
                final(this)@,
            ),
        decreases *old(budget), 2 + lhs.size() + idx_expr.size() + rest.size(), 0nat,
    {
        let mut value = self.get_dot_indexed(
            scope,
            this,
            lhs,
            idx_expr,
            idx_pos,
            err_pos,
            budget,
        )?;
        self.get_dot_val_helper(scope, &mut value, rest, budget)
    }

    /// Reads what stands to the right of a dot, of the value `this`.
    pub fn get_dot_val_helper(
        &self,
        scope: &mut Scope,
        this: &mut Value,
        dot_rhs: &Expr,
        budget: &mut u64,
    ) -> (r: Result<Value, EvalAltResult>)
        requires
            self.well_formed(),
            dot_rhs.read_chain_ok(),
        ensures
            kept(old(scope)@, final(scope)@, *old(budget), *final(budget)),
            dot_rhs.plain_chain() ==> final(scope)@ == old(scope)@,
            dot_rhs.scoped() ==> final(scope)@.len() == old(scope)@.len(),
            agrees_this(
                self.meaning_get_helper(old(this)@, dot_rhs, old(scope)@, *old(budget) as nat),
                r,
                final(scope)@,
                *final(budget),
                final(this)@,
            ),
        decreases *old(budget), dot_rhs.size(), 1nat,
    {
        match dot_rhs {
            Expr::FunctionCall(_, _, _, _) => self.get_dot_call(scope, this, dot_rhs, budget),
            Expr::Property(id, pos) => self.call_getter(this, id.as_str(), *pos, budget),
            Expr::Index(idx_lhs, idx_expr, idx_pos) => self.get_dot_indexed(
                scope,
                this,
                idx_lhs,
                idx_expr,
                *idx_pos,
                dot_rhs.position(),
                budget,
            ),
            Expr::Dot(dot_lhs, rhs, _) => match &**dot_lhs {
                Expr::Property(id, pos) => self.get_dot_property_then(
                    scope,
                    this,
                    id.as_str(),
                    *pos,
                    rhs,
                    budget,
                ),
                Expr::Index(idx_lhs, idx_expr, idx_pos) => {
                    proof {
                        assert(dot_lhs.size() == 1 + idx_lhs.size() + idx_expr.size());
                        assert(dot_lhs.scoped() == (idx_lhs.scoped() && idx_expr.scoped()));
                        assert(dot_lhs.read_chain_ok() == match **idx_lhs {
                            Expr::Property(_, _) => idx_expr.evaluable(),
                            Expr::Index(_, _, _) => idx_lhs.read_chain_ok()
                                && idx_expr.evaluable(),
                            _ => true,
                        });
                    }
                    self.get_dot_indexed_then(
                        scope,
                        this,
                        idx_lhs,
                        idx_expr,
                        *idx_pos,
                        dot_rhs.position(),
                        rhs,
                        budget,
                    )
                },
                _ => Err(EvalAltResult::ErrorDotExpr(String::new(), dot_lhs.position())),
            },
            _ => Err(EvalAltResult::ErrorDotExpr(String::new(), dot_rhs.position())),
        }
    }

    /// Stores the copy `target` of a root variable back after a chain that ended in `val`:
    /// the copy takes the place of the variable's value where the chain succeeded, and
    /// nothing is written where it failed. The outcome of the chain is handed on.
    pub fn store_root(
        scope: &mut Scope,
        id: &str,
        src_idx: usize,
        target: Value,
        val: Result<Value, EvalAltResult>,
    ) -> (r: Result<Value, EvalAltResult>)
        requires
            src_idx < old(scope)@.len(),
            old(scope)@[src_idx as int].name == id@,
        ensures
            outcome(r) == outcome(val),
            val is Ok ==> final(scope)@ == with_value(old(scope)@, src_idx as int, target@),
            val is Err ==> final(scope)@ == old(scope)@,
            (outcome(r), final(scope)@) == stored_root(
                old(scope)@,
                src_idx as int,
                target@,
                outcome(val),
            ),
    {
        match val {
            Ok(value) => {
                let slot = scope.get_mut(id, src_idx);
                *slot = target;
                Ok(value)
            },
            Err(error) => Err(error),
        }
    }

    /// Stores the copy `target` of an element back after a chain that ended in `val`. A
    /// root that is a constant refuses, whatever the chain ended in. For a root that is a
    /// variable the copy is written back in its place where the chain succeeded, and
    /// nothing is written where it failed. A root that is no variable takes nothing back.
    pub fn store_element(
        &self,
        scope: &mut Scope,
        src_type: IndexSourceType,
        root: Option<(&str, VariableType, usize)>,
        idx: usize,
        target: Value,
        val: Result<Value, EvalAltResult>,
        lhs_pos: Position,
        val_pos: Position,
    ) -> (r: Result<Value, EvalAltResult>)
        requires
            idx <= i64::MAX,
            root matches Some((id, kind, src_idx)) ==> src_idx < old(scope)@.len() && old(
                scope,
            )@[src_idx as int].name == id@ && old(scope)@[src_idx as int].kind == kind,
        ensures
            extends(old(scope)@, final(scope)@),
            final(scope)@.len() == old(scope)@.len(),
            (outcome(r), final(scope)@) == self.stored_element(
                src_type,
                root_view(root),
                idx as int,
                target@,
                outcome(val),
                old(scope)@,
                lhs_pos,
                val_pos,
            ),
            root matches Some((id, VariableType::Constant, _)) ==> outcome(r) == Err::<SpecValue, _>(
                SpecError::AssignmentToConstant(id@, lhs_pos),
            ) && final(scope)@ == old(scope)@,
            root is Some && val is Err ==> final(scope)@ == old(scope)@,
            root is None ==> outcome(r) == outcome(val) && final(scope)@ == old(scope)@,
            root matches Some((id, _, _)) ==> (only_constant(final(scope)@, id@) ==> r is Err),
    {
        match root {
            Some((id, VariableType::Constant, _)) => Err(
                EvalAltResult::ErrorAssignmentToConstant(id.to_string(), lhs_pos),
            ),
            Some((id, VariableType::Normal, src_idx)) => match val {
                Ok(value) => {
                    let written = self.write_back_element(
                        src_type,
                        scope,
                        id,
                        src_idx,
                        idx,
                        target,
                        val_pos,
                    );
                    proof {
                        lemma_not_only_constant(scope@, src_idx as int, id@);
                    }
                    match written {
                        Ok(_) => Ok(value),
                        Err(error) => Err(error),
                    }
                },
                Err(error) => {
                    proof {
                        lemma_not_only_constant(scope@, src_idx as int, id@);
                    }
                    Err(error)
                },
            },
            None => val,
        }
    }

    /// Reads the chain `id.dot_rhs` of a variable. The variable is worked on in a copy,
    /// which is written back once the chain has succeeded.
    pub fn get_dot_variable(
        &self,
        scope: &mut Scope,
        id: &str,
        pos: Position,
        dot_rhs: &Expr,
        budget: &mut u64,
    ) -> (r: Result<Value, EvalAltResult>)
        requires
            self.well_formed(),
            dot_rhs.read_chain_ok(),
        ensures
            kept(old(scope)@, final(scope)@, *old(budget), *final(budget)),
            dot_rhs.plain_chain() && r is Err ==> final(scope)@ == old(scope)@,
            dot_rhs.plain_chain() && r is Ok ==> exists|v: SpecValue|
                final(scope)@ == with_value(old(scope)@, lookup(old(scope)@, id@)->0, v),
            dot_rhs.scoped() ==> final(scope)@.len() == old(scope)@.len(),
            agrees(
                self.meaning_get_variable(id@, pos, dot_rhs, old(scope)@, *old(budget) as nat),
                r,
                final(scope)@,
                *final(budget),
            ),
        decreases *old(budget), dot_rhs.size(), 2nat,
    {
        let (src_idx, _, mut target) = Self::search_scope(scope, id, pos)?;
        let val = self.get_dot_val_helper(scope, &mut target, dot_rhs, budget);
        Self::store_root(scope, id, src_idx, target, val)
    }

    /// Reads the chain `base[idx_expr].dot_rhs`. The element is worked on in a copy, which
    /// is written back once the chain has succeeded. An element of a constant refuses once
    /// the chain has run, whatever it ended in.
    pub fn get_dot_element(
        &self,
        scope: &mut Scope,
        base: &Expr,
        idx_expr: &Expr,
        idx_pos: Position,
        dot_rhs: &Expr,
        budget: &mut u64,
    ) -> (r: Result<Value, EvalAltResult>)
        requires
            self.well_formed(),
            base.evaluable(),
            idx_expr.evaluable(),
            dot_rhs.read_chain_ok(),
        ensures
            kept(old(scope)@, final(scope)@, *old(budget), *final(budget)),
            base.scoped() && idx_expr.scoped() && dot_rhs.scoped() ==> final(scope)@.len() == old(
                scope,
            )@.len(),
            self.meaning_index(base, idx_expr, idx_pos, old(scope)@, *old(budget) as nat)
                matches Some((Ok(target), _, _)) ==> (target.root matches Some(
                (id, VariableType::Constant, _),
            ) ==> outcome(r) == Err::<SpecValue, _>(
                SpecError::AssignmentToConstant(id, base.position()),
            )),
            agrees(
                self.meaning_get_element(
                    base,
                    idx_expr,
                    idx_pos,
                    dot_rhs,
                    old(scope)@,
                    *old(budget) as nat,
                ),
                r,
                final(scope)@,
                *final(budget),
            ),
        decreases *old(budget), 1 + base.size() + idx_expr.size() + dot_rhs.size(), 0nat,
    {
        let (src_type, src, idx, mut target) = self.eval_index_expr(
            scope,
            base,
            idx_expr,
            idx_pos,
            budget,
        )?;
        let val = self.get_dot_val_helper(scope, &mut target, dot_rhs, budget);
        self.store_element(
            scope,
            src_type,
            src,
            idx,
            target,
            val,
            base.position(),
            dot_rhs.position(),
        )
    }

    /// Reads a dot chain `dot_lhs.dot_rhs`. Where the root is a variable, or an element of
    /// one, what the chain did to its copy is written back once the chain has succeeded.
    pub fn get_dot_val(
        &self,
        scope: &mut Scope,
        dot_lhs: &Expr,
        dot_rhs: &Expr,
        budget: &mut u64,
    ) -> (r: Result<Value, EvalAltResult>)
        requires
            self.well_formed(),
            dot_lhs.evaluable(),
            dot_rhs.read_chain_ok(),
        ensures
            kept(old(scope)@, final(scope)@, *old(budget), *final(budget)),
            dot_lhs is Variable && dot_rhs.plain_chain() && r is Err ==> final(scope)@ == old(
                scope,
            )@,
            dot_lhs matches Expr::Variable(id, _) ==> (dot_rhs.plain_chain() && r is Ok
                ==> exists|v: SpecValue|
                final(scope)@ == with_value(old(scope)@, lookup(old(scope)@, id@)->0, v)),
            dot_lhs.scoped() && dot_rhs.scoped() ==> final(scope)@.len() == old(scope)@.len(),
            agrees(
                self.meaning_get_dot(dot_lhs, dot_rhs, old(scope)@, *old(budget) as nat),
                r,
                final(scope)@,
                *final(budget),
            ),
        decreases *old(budget), 1 + dot_lhs.size() + dot_rhs.size(), 0nat,
    {
        match dot_lhs {
            Expr::Variable(id, pos) => self.get_dot_variable(
                scope,
                id.as_str(),
                *pos,
                dot_rhs,
                budget,
            ),
            Expr::Index(idx_lhs, idx_expr, idx_pos) => self.get_dot_element(
                scope,
                idx_lhs,
                idx_expr,
                *idx_pos,
                dot_rhs,
                budget,
            ),
            _ => {
                let mut target = self.eval_expr(scope, dot_lhs, budget)?;
                self.get_dot_val_helper(scope, &mut target, dot_rhs, budget)
            },
        }
    }

    /// Puts `value` into the container `held` at the index `idx` and sets the result back
    /// as the property `id` of `this`.
    pub fn put_and_set(
        &self,
        this: &mut Value,
        id: &str,
        pos: Position,
        held: Value,
        idx: usize,
        value: Value,
        val_pos: Position,
        budget: &mut u64,
    ) -> (r: Result<Value, EvalAltResult>)
        requires
            self.well_formed(),
            crate::index::element_at(held@, idx as int) is Some,
        ensures
            *final(budget) <= *old(budget),
            self.meaning_put_and_set(
                old(this)@,
                id@,
                pos,
                held@,
                idx as int,
                value@,
                val_pos,
                *old(budget) as nat,
            ) matches Some((o, t, left)) ==> outcome(r) == o && final(this)@ == t
                && *final(budget) == left,
        decreases *old(budget), 0nat, 3nat,
    {
        let changed = Self::update_indexed_value(held, idx, value, val_pos)?;
        self.call_setter(this, id, changed, pos, budget)
    }

    /// Assigns `new_val` to `this.id[idx_expr]` once the getter gave `held`: the index is
    /// evaluated, `held` is changed at it and set back through the setter.
    pub fn set_dot_at(
        &self,
        scope: &mut Scope,
        this: &mut Value,
        id: &str,
        pos: Position,
        held: Value,
        idx_expr: &Expr,
        idx_pos: Position,
        new_val: Value,
        val_pos: Position,
        budget: &mut u64,
    ) -> (r: Result<Value, EvalAltResult>)
        requires
            self.well_formed(),
            idx_expr.evaluable(),
        ensures
            kept(old(scope)@, final(scope)@, *old(budget), *final(budget)),
            idx_expr.scoped() ==> final(scope)@.len() == old(scope)@.len(),
            agrees_this(
                self.meaning_set_at(
                    old(this)@,
                    id@,
                    pos,
                    held@,
                    idx_expr,
                    idx_pos,
                    new_val@,
                    val_pos,
                    old(scope)@,
                    *old(budget) as nat,
                ),
                r,
                final(scope)@,
                *final(budget),
                final(this)@,
            ),
        decreases *old(budget), idx_expr.size(), 3nat,
    {
        let idx = self.eval_index_value(scope, idx_expr, budget)?;
        self.get_indexed_value(&held, idx, idx_expr.position(), idx_pos)?;
        self.put_and_set(this, id, pos, held, idx as usize, new_val, val_pos, budget)
    }

    /// Assigns `new_val` to `this.id[idx_expr]`: the container is read through the getter,
    /// changed, and set back through the setter.
    pub fn set_dot_indexed(
        &self,
        scope: &mut Scope,
        this: &mut Value,
        id: &str,
        pos: Position,
        idx_expr: &Expr,
        idx_pos: Position,
        new_val: Value,
        val_pos: Position,
        budget: &mut u64,
    ) -> (r: Result<Value, EvalAltResult>)
        requires
            self.well_formed(),
            idx_expr.evaluable(),
        ensures
            kept(old(scope)@, final(scope)@, *old(budget), *final(budget)),
            idx_expr.scoped() ==> final(scope)@.len() == old(scope)@.len(),
            agrees_this(
                self.meaning_set_indexed(
                    old(this)@,
                    id@,
                    pos,
                    idx_expr,
                    idx_pos,
                    new_val@,
                    val_pos,
                    old(scope)@,
                    *old(budget) as nat,
                ),
                r,
                final(scope)@,
                *final(budget),
                final(this)@,
            ),
        decreases *old(budget), idx_expr.size(), 4nat,
    {
        let held = self.call_getter(this, id, pos, budget)?;
        self.set_dot_at(scope, this, id, pos, held, idx_expr, idx_pos, new_val, val_pos, budget)
    }

    /// Assigns `new_val` to `this.id.rest`: the property is read, the rest of the chain is
    /// assigned to in its value, and the value is set back.
    pub fn set_dot_property_then(
        &self,
        scope: &mut Scope,
        this: &mut Value,
        id: &str,
        pos: Position,
        rest: &Expr,
        new_val: Value,
        val_pos: Position,
        budget: &mut u64,
    ) -> (r: Result<Value, EvalAltResult>)
        requires
            self.well_formed(),
            rest.write_chain_ok(),
        ensures
            kept(old(scope)@, final(scope)@, *old(budget), *final(budget)),
            rest.plain_chain() ==> final(scope)@ == old(scope)@,
            rest.scoped() ==> final(scope)@.len() == old(scope)@.len(),
            agrees_this(
                self.meaning_set_property_then(
                    old(this)@,
                    id@,
                    pos,
                    rest,
                    new_val@,
                    val_pos,
                    old(scope)@,
                    *old(budget) as nat,
                ),
                r,
                final(scope)@,
                *final(budget),
                final(this)@,
            ),
        decreases *old(budget), 1 + rest.size(), 0nat,
    {
        let mut held = self.call_getter(this, id, pos, budget)?;
        self.set_dot_val_helper(scope, &mut held, rest, new_val, val_pos, budget)?;
        self.call_setter(this, id, held, pos, budget)
    }

    /// Assigns `new_val` to the rest of a chain in the element `target` of `held`, where
    /// `held` is the property `id` of `this`: the rest of the chain works on the element,
    /// which is put back into `held`, which is set back.
    pub fn set_dot_in_element(
        &self,
        scope: &mut Scope,
        this: &mut Value,
        id: &str,
        pos: Position,
        held: Value,
        idx: usize,
        target: Value,
        rest: &Expr,
        new_val: Value,
        val_pos: Position,
        budget: &mut u64,
    ) -> (r: Result<Value, EvalAltResult>)
        requires
            self.well_formed(),
            rest.write_chain_ok(),
            crate::index::element_at(held@, idx as int) is Some,
        ensures
            kept(old(scope)@, final(scope)@, *old(budget), *final(budget)),
            rest.scoped() ==> final(scope)@.len() == old(scope)@.len(),
            agrees_this(
                self.meaning_set_in_element(
                    old(this)@,
                    id@,
                    pos,
                    held@,
                    idx as int,
                    target@,
                    rest,
                    new_val@,
                    val_pos,
                    old(scope)@,
                    *old(budget) as nat,
                ),
                r,
                final(scope)@,
                *final(budget),
                final(this)@,
            ),
        decreases *old(budget), rest.size(), 2nat,
    {
        let mut target = target;
        self.set_dot_val_helper(scope, &mut target, rest, new_val, val_pos, budget)?;
        self.put_and_set(this, id, pos, held, idx, target, val_pos, budget)
    }

    /// Assigns `new_val` to `this.id[idx_expr].rest`: the element is read, the rest of the
    /// chain works on it, and it is put back into the container, which is set back through
    /// the setter.
    pub fn set_dot_through(
        &self,
        scope: &mut Scope,
        this: &mut Value,
        id: &str,
        pos: Position,
        idx_expr: &Expr,
        idx_pos: Position,
        rest: &Expr,
        new_val: Value,
        val_pos: Position,
        budget: &mut u64,
    ) -> (r: Result<Value, EvalAltResult>)
        requires
            self.well_formed(),
            idx_expr.evaluable(),
            rest.write_chain_ok(),
        ensures
            kept(old(scope)@, final(scope)@, *old(budget), *final(budget)),
            idx_expr.scoped() && rest.scoped() ==> final(scope)@.len() == old(scope)@.len(),
            agrees_this(
                self.meaning_set_through(
                    old(this)@,
                    id@,
                    pos,
                    idx_expr,
                    idx_pos,
                    rest,
                    new_val@,
                    val_pos,
                    old(scope)@,
                    *old(budget) as nat,
                ),
                r,
                final(scope)@,
                *final(budget),
                final(this)@,
            ),
        decreases *old(budget), 1 + idx_expr.size() + rest.size(), 1nat,
    {
        let held = self.call_getter(this, id, pos, budget)?;
        self.set_dot_through_at(
            scope,
            this,
            id,
            pos,
            held,
            idx_expr,
            idx_pos,
            rest,
            new_val,
            val_pos,
            budget,
        )
    }

    /// Assigns `new_val` to `this.id[idx_expr].rest` once the getter gave `held`: the
    /// element is read, the rest of the chain works on it, and it is put back into `held`,
    /// which is set back through the setter.
    pub fn set_dot_through_at(
        &self,
        scope: &mut Scope,
        this: &mut Value,
        id: &str,
        pos: Position,
        held: Value,
        idx_expr: &Expr,
        idx_pos: Position,
        rest: &Expr,
        new_val: Value,
        val_pos: Position,
        budget: &mut u64,
    ) -> (r: Result<Value, EvalAltResult>)
        requires
            self.well_formed(),
            idx_expr.evaluable(),
            rest.write_chain_ok(),
        ensures
            kept(old(scope)@, final(scope)@, *old(budget), *final(budget)),
            idx_expr.scoped() && rest.scoped() ==> final(scope)@.len() == old(scope)@.len(),
            agrees_this(
                self.meaning_set_through_at(
                    old(this)@,
                    id@,
                    pos,
                    held@,
                    idx_expr,
                    idx_pos,
                    rest,
                    new_val@,
                    val_pos,
                    old(scope)@,
                    *old(budget) as nat,
                ),
                r,
                final(scope)@,
                *final(budget),
                final(this)@,
            ),
        decreases *old(budget), 1 + idx_expr.size() + rest.size(), 0nat,
    {
        let idx = self.eval_index_value(scope, idx_expr, budget)?;
        let (target, _) = self.get_indexed_value(&held, idx, idx_expr.position(), idx_pos)?;
        self.set_dot_in_element(
            scope,
            this,
            id,
            pos,
            held,
            idx as usize,
            target,
            rest,
            new_val,
            val_pos,
            budget,
        )
    }

    /// Assigns `new_val` to what stands to the right of a dot, of the value `this`: the last
    /// step is a setter, and every step before it reads through a getter, changes the copy
    /// and sets it back.
    pub fn set_dot_val_helper(
        &self,
        scope: &mut Scope,
        this: &mut Value,
        dot_rhs: &Expr,
        new_val: Value,
        val_pos: Position,
        budget: &mut u64,
    ) -> (r: Result<Value, EvalAltResult>)
        requires
            self.well_formed(),
            dot_rhs.write_chain_ok(),
        ensures
            kept(old(scope)@, final(scope)@, *old(budget), *final(budget)),
            dot_rhs.plain_chain() ==> final(scope)@ == old(scope)@,
            dot_rhs.scoped() ==> final(scope)@.len() == old(scope)@.len(),
            agrees_this(
                self.meaning_set_helper(
                    old(this)@,
                    dot_rhs,
                    new_val@,
                    val_pos,
                    old(scope)@,
                    *old(budget) as nat,
                ),
                r,
                final(scope)@,
                *final(budget),
                final(this)@,
            ),
        decreases *old(budget), dot_rhs.size(), 1nat,
    {
        match dot_rhs {
            Expr::Property(id, pos) => self.call_setter(this, id.as_str(), new_val, *pos, budget),
            Expr::Index(lhs, idx_expr, idx_pos) => match &**lhs {
                Expr::Property(id, pos) => self.set_dot_indexed(
                    scope,
                    this,
                    id.as_str(),
                    *pos,
                    idx_expr,
                    *idx_pos,
                    new_val,
                    val_pos,
                    budget,
                ),
                _ => Err(EvalAltResult::ErrorDotExpr("for assignment".to_string(), *idx_pos)),
            },
            Expr::Dot(lhs, rhs, _) => match &**lhs {
                Expr::Property(id, pos) => self.set_dot_property_then(
                    scope,
                    this,
                    id.as_str(),
                    *pos,
                    rhs,
                    new_val,
                    val_pos,
                    budget,
                ),
                Expr::Index(base, idx_expr, idx_pos) => match &**base {
                    Expr::Property(id, pos) => {
                        proof {
                            assert(lhs.size() == 1 + base.size() + idx_expr.size());
                            assert(lhs.scoped() == (base.scoped() && idx_expr.scoped()));
                        }
                        self.set_dot_through(
                            scope,
                            this,
                            id.as_str(),
                            *pos,
                            idx_expr,
                            *idx_pos,
                            rhs,
                            new_val,
                            val_pos,
                            budget,
                        )
                    },
                    _ => Err(EvalAltResult::ErrorDotExpr("for assignment".to_string(), *idx_pos)),
                },
                _ => Err(
                    EvalAltResult::ErrorDotExpr("for assignment".to_string(), lhs.position()),
                ),
            },
            _ => Err(
                EvalAltResult::ErrorDotExpr("for assignment".to_string(), dot_rhs.position()),
            ),
        }
    }

    /// Assigns `new_val` to the chain `id.dot_rhs` of a variable. A constant refuses it; a
    /// variable is worked on in a copy, which is written back once the chain has succeeded.
    pub fn set_dot_variable(
        &self,
        scope: &mut Scope,
        id: &str,
        pos: Position,
        dot_rhs: &Expr,
        new_val: Value,
        val_pos: Position,
        op_pos: Position,
        budget: &mut u64,
    ) -> (r: Result<Value, EvalAltResult>)
        requires
            self.well_formed(),
            dot_rhs.write_chain_ok(),
        ensures
            kept(old(scope)@, final(scope)@, *old(budget), *final(budget)),
            dot_rhs.plain_chain() && r is Err ==> final(scope)@ == old(scope)@,
            dot_rhs.plain_chain() && r is Ok ==> exists|v: SpecValue|
                final(scope)@ == with_value(old(scope)@, lookup(old(scope)@, id@)->0, v),
            dot_rhs.scoped() ==> final(scope)@.len() == old(scope)@.len(),
            agrees(
                self.meaning_set_variable(
                    id@,
                    pos,
                    dot_rhs,
                    new_val@,
                    val_pos,
                    op_pos,
                    old(scope)@,
                    *old(budget) as nat,
                ),
                r,
                final(scope)@,
                *final(budget),
            ),
            only_constant(final(scope)@, id@) ==> r is Err,
        decreases *old(budget), dot_rhs.size(), 2nat,
    {
        let (src_idx, kind, mut target) = Self::search_scope(scope, id, pos)?;
        match kind {
            VariableType::Constant => {
                return Err(EvalAltResult::ErrorAssignmentToConstant(id.to_string(), op_pos));
            },
            VariableType::Normal => {},
        }
        let val = self.set_dot_val_helper(scope, &mut target, dot_rhs, new_val, val_pos, budget);
        let r = Self::store_root(scope, id, src_idx, target, val);
        proof {
            lemma_not_only_constant(scope@, src_idx as int, id@);
        }
        r
    }

    /// Assigns `new_val` to the chain `base[idx_expr].dot_rhs`. The element is worked on in
    /// a copy, which is written back once the chain has succeeded. An element of a constant
    /// refuses once the chain has run, whatever it ended in.
    pub fn set_dot_element(
        &self,
        scope: &mut Scope,
        base: &Expr,
        idx_expr: &Expr,
        idx_pos: Position,
        dot_rhs: &Expr,
        new_val: Value,
        val_pos: Position,
        budget: &mut u64,
    ) -> (r: Result<Value, EvalAltResult>)
        requires
            self.well_formed(),
            base.evaluable(),
            idx_expr.evaluable(),
            dot_rhs.write_chain_ok(),
        ensures
            kept(old(scope)@, final(scope)@, *old(budget), *final(budget)),
            base.scoped() && idx_expr.scoped() && dot_rhs.scoped() ==> final(scope)@.len() == old(
                scope,
            )@.len(),
            self.meaning_index(base, idx_expr, idx_pos, old(scope)@, *old(budget) as nat)
                matches Some((Ok(target), _, _)) ==> (target.root matches Some(
                (id, VariableType::Constant, _),
            ) ==> outcome(r) == Err::<SpecValue, _>(
                SpecError::AssignmentToConstant(id, base.position()),
            )),
            agrees(
                self.meaning_set_element(
                    base,
                    idx_expr,
                    idx_pos,
                    dot_rhs,
                    new_val@,
                    val_pos,
                    old(scope)@,
                    *old(budget) as nat,
                ),
                r,
                final(scope)@,
                *final(budget),
            ),
            base matches Expr::Variable(id, _) ==> (only_constant(final(scope)@, id@) ==> r
                is Err),
        decreases *old(budget), 1 + base.size() + idx_expr.size() + dot_rhs.size(), 0nat,
    {
        let (src_type, src, idx, mut target) = self.eval_index_expr(
            scope,
            base,
            idx_expr,
            idx_pos,
            budget,
        )?;
        let val = self.set_dot_val_helper(scope, &mut target, dot_rhs, new_val, val_pos, budget);
        self.store_element(scope, src_type, src, idx, target, val, base.position(), val_pos)
    }

    /// Assigns `new_val` to a dot chain `dot_lhs.dot_rhs`. The root must be a variable or an
    /// element of one, and no constant.
    pub fn set_dot_val(
        &self,
        scope: &mut Scope,
        dot_lhs: &Expr,
        dot_rhs: &Expr,
        new_val: Value,
        val_pos: Position,
        op_pos: Position,
        budget: &mut u64,
    ) -> (r: Result<Value, EvalAltResult>)
        requires
            self.well_formed(),
            dot_lhs is Variable ==> dot_rhs.write_chain_ok(),
            dot_lhs matches Expr::Index(base, index, _) ==> base.evaluable() && index.evaluable()
                && dot_rhs.write_chain_ok(),
        ensures
            kept(old(scope)@, final(scope)@, *old(budget), *final(budget)),
            dot_lhs is Variable && dot_rhs.plain_chain() && r is Err ==> final(scope)@ == old(
                scope,
            )@,
            dot_lhs matches Expr::Variable(id, _) ==> (dot_rhs.plain_chain() && r is Ok
                ==> exists|v: SpecValue|
                final(scope)@ == with_value(old(scope)@, lookup(old(scope)@, id@)->0, v)),
            dot_lhs.scoped() && dot_rhs.scoped() ==> final(scope)@.len() == old(scope)@.len(),
            agrees(
                self.meaning_set_dot(
                    dot_lhs,
                    dot_rhs,
                    new_val@,
                    val_pos,
                    op_pos,
                    old(scope)@,
                    *old(budget) as nat,
                ),
                r,
                final(scope)@,
                *final(budget),
            ),
            dot_lhs.root_variable() matches Some(name) ==> (only_constant(final(scope)@, name)
                ==> r is Err),
        decreases *old(budget), 1 + dot_lhs.size() + dot_rhs.size(), 0nat,
    {
        match dot_lhs {
            Expr::Variable(id, pos) => self.set_dot_variable(
                scope,
                id.as_str(),
                *pos,
                dot_rhs,
                new_val,
                val_pos,
                op_pos,
                budget,
            ),
            Expr::Index(lhs, idx_expr, idx_pos) => self.set_dot_element(
                scope,
                lhs,
                idx_expr,
                *idx_pos,
                dot_rhs,
                new_val,
                val_pos,
                budget,
            ),
            _ => Err(EvalAltResult::ErrorAssignmentToUnknownLHS(dot_lhs.position())),
        }
    }
}

} // verus!
