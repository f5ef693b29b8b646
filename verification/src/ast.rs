//! The syntax tree that the engine evaluates: expressions, statements and script functions,
//! each with the place in the source that errors speak of.

use crate::engine::KEYWORD_DUMP_AST;
use crate::text::{int_to_text, push_char, text_eq};
use crate::value::{Value, INT};
use vstd::prelude::*;

verus! {

/// A place in the source text.
#[derive(Clone, Copy, Debug, PartialEq, Eq, Hash, Structural)]
pub struct Position {
    pub line: usize,
    pub pos: usize,
}

impl Position {
    /// The place at the given line and column.
    pub fn new(line: usize, position: usize) -> (r: Position)
        ensures
            r == (Position { line, pos: position }),
    {
        Position { line, pos: position }
    }

    /// The line of this place.
    pub fn line(&self) -> (r: usize)
        ensures
            r == self.line,
    {
        self.line
    }

    /// The column of this place.
    pub fn position(&self) -> (r: usize)
        ensures
            r == self.pos,
    {
        self.pos
    }
}

/// What a `return` or a `throw` statement does with its value.
#[derive(Clone, Copy, Debug, PartialEq, Eq, Hash, Structural)]
pub enum ReturnType {
    /// Hand the value back to the caller.
    Return,
    /// Raise a runtime error with the value as its message.
    Exception,
}

/// An expression.
#[derive(Debug, PartialEq)]
pub enum Expr {
    IntegerConstant(INT, Position),
    Variable(String, Position),
    /// The name of a property: it stands only to the right of a dot.
    Property(String, Position),
    CharConstant(char, Position),
    StringConstant(String, Position),
    /// A statement in the place of an expression.
    Stmt(Box<Stmt>, Position),
    /// A call: the name, the arguments, and the value to give where no function is found.
    FunctionCall(String, Vec<Expr>, Option<Value>, Position),
    /// `lhs = rhs`, with the place of the `=`.
    Assignment(Box<Expr>, Box<Expr>, Position),
    /// `lhs.rhs`
    Dot(Box<Expr>, Box<Expr>, Position),
    /// `lhs[index]`, with the place of the bracket.
    Index(Box<Expr>, Box<Expr>, Position),
    Array(Vec<Expr>, Position),
    And(Box<Expr>, Box<Expr>),
    Or(Box<Expr>, Box<Expr>),
    True(Position),
    False(Position),
    Unit(Position),
}

/// A statement.
#[derive(Debug, PartialEq)]
pub enum Stmt {
    Noop(Position),
    IfElse(Box<Expr>, Box<Stmt>, Option<Box<Stmt>>),
    While(Box<Expr>, Box<Stmt>),
    Loop(Box<Stmt>),
    For(String, Box<Expr>, Box<Stmt>),
    Let(String, Option<Box<Expr>>, Position),
    Const(String, Box<Expr>, Position),
    Block(Vec<Stmt>, Position),
    Expr(Box<Expr>),
    Break(Position),
    ReturnWithVal(Option<Box<Expr>>, ReturnType, Position),
}

/// A function defined by a script.
#[derive(Debug, PartialEq)]
pub struct FnDef {
    pub name: String,
    pub params: Vec<String>,
    pub body: Stmt,
    pub pos: Position,
}

/// The size of a list of expressions: the sizes of its items, and one more for each.
pub open spec fn sizes(items: Seq<Expr>) -> nat
    decreases items,
{
    if items.len() == 0 {
        0
    } else {
        sizes(items.subrange(0, items.len() - 1)) + items[items.len() - 1].size() + 1
    }
}

/// The size of a list of statements: the sizes of its items, and one more for each.
pub open spec fn stmt_sizes(items: Seq<Stmt>) -> nat
    decreases items,
{
    if items.len() == 0 {
        0
    } else {
        stmt_sizes(items.subrange(0, items.len() - 1)) + items[items.len() - 1].size() + 1
    }
}

/// Every expression has a size of at least one.
pub proof fn lemma_size_positive(expr: &Expr)
    ensures
        expr.size() >= 1,
{
}

/// An item of a list is smaller than the list.
pub proof fn lemma_item_size(items: Seq<Expr>, i: int)
    requires
        0 <= i < items.len(),
    ensures
        items[i].size() < sizes(items),
    decreases items.len(),
{
    if i < items.len() - 1 {
        lemma_item_size(items.subrange(0, items.len() - 1), i);
    }
}

/// A statement of a list is smaller than the list.
pub proof fn lemma_stmt_size(items: Seq<Stmt>, i: int)
    requires
        0 <= i < items.len(),
    ensures
        items[i].size() < stmt_sizes(items),
    decreases items.len(),
{
    if i < items.len() - 1 {
        lemma_stmt_size(items.subrange(0, items.len() - 1), i);
    }
}

/// Every expression of the list is a constant expression.
pub open spec fn all_constant(items: Seq<Expr>) -> bool
{
    forall|i: int| 0 <= i < items.len() ==> (#[trigger] items[i]).is_constant()
}

/// Every expression of the list can be evaluated.
pub open spec fn all_evaluable(items: Seq<Expr>) -> bool
{
    forall|i: int| 0 <= i < items.len() ==> (#[trigger] items[i]).evaluable()
}

/// Every expression of the list leaves the scope's length as it found it.
pub open spec fn all_scoped(items: Seq<Expr>) -> bool
{
    forall|i: int| 0 <= i < items.len() ==> (#[trigger] items[i]).scoped()
}

/// Every statement of the list can be evaluated.
pub open spec fn all_stmts_evaluable(items: Seq<Stmt>) -> bool
{
    forall|i: int| 0 <= i < items.len() ==> (#[trigger] items[i]).evaluable()
}

impl Expr {
    /// The size of the expression: the number of its nodes, counting each item of a list
    /// twice. What an evaluation still has to walk is measured by it.
    pub open spec fn size(&self) -> nat
        decreases self,
    {
        match self {
            Expr::Stmt(stmt, _) => 1 + stmt.size(),
            Expr::FunctionCall(_, args, _, _) => 1 + sizes(args@),
            Expr::Assignment(lhs, rhs, _) => 1 + lhs.size() + rhs.size(),
            Expr::Dot(lhs, rhs, _) => 1 + lhs.size() + rhs.size(),
            Expr::Index(lhs, index, _) => 1 + lhs.size() + index.size(),
            Expr::Array(items, _) => 1 + sizes(items@),
            Expr::And(lhs, rhs) => 1 + lhs.size() + rhs.size(),
            Expr::Or(lhs, rhs) => 1 + lhs.size() + rhs.size(),
            _ => 1,
        }
    }

    /// The place that an error about this expression names: its own where it has one, else
    /// that of its first operand.
    pub open spec fn spec_position(&self) -> Position
        decreases self,
    {
        match self {
            Expr::IntegerConstant(_, pos) => *pos,
            Expr::Variable(_, pos) => *pos,
            Expr::Property(_, pos) => *pos,
            Expr::CharConstant(_, pos) => *pos,
            Expr::StringConstant(_, pos) => *pos,
            Expr::Stmt(_, pos) => *pos,
            Expr::FunctionCall(_, _, _, pos) => *pos,
            Expr::Array(_, pos) => *pos,
            Expr::True(pos) => *pos,
            Expr::False(pos) => *pos,
            Expr::Unit(pos) => *pos,
            Expr::Assignment(lhs, _, _) => lhs.spec_position(),
            Expr::Dot(lhs, _, _) => lhs.spec_position(),
            Expr::Index(lhs, _, _) => lhs.spec_position(),
            Expr::And(lhs, _) => lhs.spec_position(),
            Expr::Or(lhs, _) => lhs.spec_position(),
        }
    }

    /// The place that an error about this expression names.
    #[verifier::when_used_as_spec(spec_position)]
    pub fn position(&self) -> (p: Position)
        ensures
            p == self.spec_position(),
        decreases self,
    {
        match self {
            Expr::IntegerConstant(_, pos) => *pos,
            Expr::Variable(_, pos) => *pos,
            Expr::Property(_, pos) => *pos,
            Expr::CharConstant(_, pos) => *pos,
            Expr::StringConstant(_, pos) => *pos,
            Expr::Stmt(_, pos) => *pos,
            Expr::FunctionCall(_, _, _, pos) => *pos,
            Expr::Array(_, pos) => *pos,
            Expr::True(pos) => *pos,
            Expr::False(pos) => *pos,
            Expr::Unit(pos) => *pos,
            Expr::Assignment(lhs, _, _) => lhs.position(),
            Expr::Dot(lhs, _, _) => lhs.position(),
            Expr::Index(lhs, _, _) => lhs.position(),
            Expr::And(lhs, _) => lhs.position(),
            Expr::Or(lhs, _) => lhs.position(),
        }
    }

    /// The variable that an assignment to this expression would write to or into: the
    /// variable itself, or the root of an index or of a dot chain.
    pub open spec fn root_variable(&self) -> Option<Seq<char>> {
        match self {
            Expr::Variable(id, _) => Some(id@),
            Expr::Index(base, _, _) => match **base {
                Expr::Variable(id, _) => Some(id@),
                _ => None,
            },
            Expr::Dot(root, _, _) => match **root {
                Expr::Variable(id, _) => Some(id@),
                Expr::Index(base, _, _) => match *base {
                    Expr::Variable(id, _) => Some(id@),
                    _ => None,
                },
                _ => None,
            },
            _ => None,
        }
    }

    /// A constant expression: a literal, or an array of constant expressions.
    pub open spec fn spec_is_constant(&self) -> bool
        decreases self,
    {
        match self {
            Expr::IntegerConstant(_, _) => true,
            Expr::CharConstant(_, _) => true,
            Expr::StringConstant(_, _) => true,
            Expr::True(_) => true,
            Expr::False(_) => true,
            Expr::Unit(_) => true,
            Expr::Array(items, _) => forall|i: int|
                0 <= i < items@.len() ==> (#[trigger] items@[i]).spec_is_constant(),
            _ => false,
        }
    }

    /// The text that stands for a constant expression in an error.
    pub open spec fn constant_text(&self) -> Seq<char> {
        match self {
            Expr::IntegerConstant(i, _) => crate::text::decimal(*i as int),
            Expr::CharConstant(c, _) => seq![*c],
            Expr::StringConstant(_, _) => "string"@,
            Expr::True(_) => "true"@,
            Expr::False(_) => "false"@,
            Expr::Unit(_) => "()"@,
            _ => "array"@,
        }
    }

    /// Evaluating this expression reaches no node that has no value: no property name
    /// outside the right side of a dot, and no `const` with an initializer that is not constant.
    pub open spec fn evaluable(&self) -> bool
        decreases self,
    {
        match self {
            Expr::Property(_, _) => false,
            Expr::Stmt(stmt, _) => stmt.evaluable(),
            Expr::FunctionCall(name, args, _, _) => name@ == KEYWORD_DUMP_AST@ || forall|i: int|
                0 <= i < args@.len() ==> (#[trigger] args@[i]).evaluable(),
            Expr::Assignment(lhs, rhs, _) => rhs.evaluable() && match **lhs {
                Expr::Index(base, index, _) => base.evaluable() && index.evaluable(),
                Expr::Dot(root, chain, _) => match *root {
                    Expr::Variable(_, _) => chain.write_chain_ok(),
                    Expr::Index(base, index, _) => base.evaluable() && index.evaluable()
                        && chain.write_chain_ok(),
                    _ => true,
                },
                _ => true,
            },
            Expr::Dot(lhs, rhs, _) => lhs.evaluable() && rhs.read_chain_ok(),
            Expr::Index(lhs, index, _) => lhs.evaluable() && index.evaluable(),
            Expr::Array(items, _) => forall|i: int|
                0 <= i < items@.len() ==> (#[trigger] items@[i]).evaluable(),
            Expr::And(lhs, rhs) => lhs.evaluable() && rhs.evaluable(),
            Expr::Or(lhs, rhs) => lhs.evaluable() && rhs.evaluable(),
            _ => true,
        }
    }

    /// As the right side of a dot that is read, this expression has every argument and
    /// index that the chain evaluates evaluable.
    pub open spec fn read_chain_ok(&self) -> bool
        decreases self,
    {
        match self {
            Expr::FunctionCall(_, args, _, _) => forall|i: int|
                0 <= i < args@.len() ==> (#[trigger] args@[i]).evaluable(),
            Expr::Index(base, index, _) => match **base {
                Expr::Property(_, _) => index.evaluable(),
                Expr::Index(_, _, _) => base.read_chain_ok() && index.evaluable(),
                _ => true,
            },
            Expr::Dot(lhs, rhs, _) => match **lhs {
                Expr::Property(_, _) => rhs.read_chain_ok(),
                Expr::Index(_, _, _) => lhs.read_chain_ok() && rhs.read_chain_ok(),
                _ => true,
            },
            _ => true,
        }
    }

    /// As the right side of a dot that is assigned to, this expression has every index
    /// that the chain evaluates evaluable.
    pub open spec fn write_chain_ok(&self) -> bool
        decreases self,
    {
        match self {
            Expr::Index(base, index, _) => match **base {
                Expr::Property(_, _) => index.evaluable(),
                _ => true,
            },
            Expr::Dot(lhs, rhs, _) => match **lhs {
                Expr::Property(_, _) => rhs.write_chain_ok(),
                Expr::Index(base, index, _) => match *base {
                    Expr::Property(_, _) => index.evaluable() && rhs.write_chain_ok(),
                    _ => true,
                },
                _ => true,
            },
            _ => true,
        }
    }

    /// As the right side of a dot, this expression is made of property names alone:
    /// `a`, `a.b`, `a.b.c`. Walking such a chain evaluates no expression.
    pub open spec fn plain_chain(&self) -> bool
        decreases self,
    {
        match self {
            Expr::Property(_, _) => true,
            Expr::Dot(lhs, rhs, _) => (**lhs) is Property && rhs.plain_chain(),
            _ => false,
        }
    }

    /// No `let` or `const` of this expression stands outside a block: evaluating it
    /// leaves the scope's length as it found it.
    pub open spec fn scoped(&self) -> bool
        decreases self,
    {
        match self {
            Expr::Stmt(stmt, _) => stmt.scoped(),
            Expr::FunctionCall(_, args, _, _) => forall|i: int|
                0 <= i < args@.len() ==> (#[trigger] args@[i]).scoped(),
            Expr::Assignment(lhs, rhs, _) => lhs.scoped() && rhs.scoped(),
            Expr::Dot(lhs, rhs, _) => lhs.scoped() && rhs.scoped(),
            Expr::Index(lhs, index, _) => lhs.scoped() && index.scoped(),
            Expr::Array(items, _) => forall|i: int|
                0 <= i < items@.len() ==> (#[trigger] items@[i]).scoped(),
            Expr::And(lhs, rhs) => lhs.scoped() && rhs.scoped(),
            Expr::Or(lhs, rhs) => lhs.scoped() && rhs.scoped(),
            _ => true,
        }
    }

    /// Whether this is a constant expression.
    #[verifier::when_used_as_spec(spec_is_constant)]
    pub fn is_constant(&self) -> (r: bool)
        ensures
            r == self.spec_is_constant(),
        decreases self,
    {
        match self {
            Expr::IntegerConstant(_, _) => true,
            Expr::CharConstant(_, _) => true,
            Expr::StringConstant(_, _) => true,
            Expr::True(_) => true,
            Expr::False(_) => true,
            Expr::Unit(_) => true,
            Expr::Array(items, _) => constant_items(items),
            _ => false,
        }
    }

    /// The text that stands for this constant expression in an error.
    pub fn get_constant_str(&self) -> (r: String)
        requires
            self.is_constant(),
        ensures
            r@ == self.constant_text(),
    {
        match self {
            Expr::IntegerConstant(i, _) => int_to_text(*i),
            Expr::CharConstant(c, _) => {
                let mut s = String::new();
                push_char(&mut s, *c);
                s
            },
            Expr::StringConstant(_, _) => "string".to_string(),
            Expr::True(_) => "true".to_string(),
            Expr::False(_) => "false".to_string(),
            Expr::Unit(_) => "()".to_string(),
            _ => "array".to_string(),
        }
    }

    /// Whether this expression can be evaluated: see [`Expr::evaluable`].
    pub fn is_evaluable(&self) -> (r: bool)
        ensures
            r == self.evaluable(),
        decreases self,
    {
        match self {
            Expr::Property(_, _) => false,
            Expr::Stmt(stmt, _) => stmt.is_evaluable(),
            Expr::FunctionCall(name, args, _, _) => text_eq(name.as_str(), KEYWORD_DUMP_AST)
                || evaluable_items(args),
            Expr::Assignment(lhs, rhs, _) => rhs.is_evaluable() && match &**lhs {
                Expr::Index(base, index, _) => base.is_evaluable() && index.is_evaluable(),
                Expr::Dot(root, chain, _) => match &**root {
                    Expr::Variable(_, _) => chain.is_write_chain_ok(),
                    Expr::Index(base, index, _) => base.is_evaluable() && index.is_evaluable()
                        && chain.is_write_chain_ok(),
                    _ => true,
                },
                _ => true,
            },
            Expr::Dot(lhs, rhs, _) => lhs.is_evaluable() && rhs.is_read_chain_ok(),
            Expr::Index(lhs, index, _) => lhs.is_evaluable() && index.is_evaluable(),
            Expr::Array(items, _) => evaluable_items(items),
            Expr::And(lhs, rhs) => lhs.is_evaluable() && rhs.is_evaluable(),
            Expr::Or(lhs, rhs) => lhs.is_evaluable() && rhs.is_evaluable(),
            _ => true,
        }
    }

    /// Whether this expression can stand to the right of a dot that is read:
    /// see [`Expr::read_chain_ok`].
    pub fn is_read_chain_ok(&self) -> (r: bool)
        ensures
            r == self.read_chain_ok(),
        decreases self,
    {
        match self {
            Expr::FunctionCall(_, args, _, _) => evaluable_items(args),
            Expr::Index(base, index, _) => match &**base {
                Expr::Property(_, _) => index.is_evaluable(),
                Expr::Index(_, _, _) => base.is_read_chain_ok() && index.is_evaluable(),
                _ => true,
            },
            Expr::Dot(lhs, rhs, _) => match &**lhs {
                Expr::Property(_, _) => rhs.is_read_chain_ok(),
                Expr::Index(_, _, _) => lhs.is_read_chain_ok() && rhs.is_read_chain_ok(),
                _ => true,
            },
            _ => true,
        }
    }

    /// Whether this expression can stand to the right of a dot that is assigned to:
    /// see [`Expr::write_chain_ok`].
    pub fn is_write_chain_ok(&self) -> (r: bool)
        ensures
            r == self.write_chain_ok(),
        decreases self,
    {
        match self {
            Expr::Index(base, index, _) => match &**base {
                Expr::Property(_, _) => index.is_evaluable(),
                _ => true,
            },
            Expr::Dot(lhs, rhs, _) => match &**lhs {
                Expr::Property(_, _) => rhs.is_write_chain_ok(),
                Expr::Index(base, index, _) => match &**base {
                    Expr::Property(_, _) => index.is_evaluable() && rhs.is_write_chain_ok(),
                    _ => true,
                },
                _ => true,
            },
            _ => true,
        }
    }
}

impl Stmt {
    /// The size of the statement: the number of its nodes, counting each item of a list twice.
    pub open spec fn size(&self) -> nat
        decreases self,
    {
        match self {
            Stmt::IfElse(guard, body, other) => 1 + guard.size() + body.size() + match other {
                Some(stmt) => stmt.size(),
                None => 0,
            },
            Stmt::While(guard, body) => 1 + guard.size() + body.size(),
            Stmt::Loop(body) => 1 + body.size(),
            Stmt::For(_, expr, body) => 1 + expr.size() + body.size(),
            Stmt::Let(_, init, _) => 1 + match init {
                Some(expr) => expr.size(),
                None => 0,
            },
            Stmt::Const(_, init, _) => 1 + init.size(),
            Stmt::Block(stmts, _) => 1 + stmt_sizes(stmts@),
            Stmt::Expr(expr) => 1 + expr.size(),
            Stmt::ReturnWithVal(value, _, _) => 1 + match value {
                Some(expr) => expr.size(),
                None => 0,
            },
            _ => 1,
        }
    }

    /// The place that an error about this statement names.
    pub open spec fn spec_position(&self) -> Position
        decreases self,
    {
        match self {
            Stmt::Noop(pos) => *pos,
            Stmt::Let(_, _, pos) => *pos,
            Stmt::Const(_, _, pos) => *pos,
            Stmt::Block(_, pos) => *pos,
            Stmt::Break(pos) => *pos,
            Stmt::ReturnWithVal(_, _, pos) => *pos,
            Stmt::IfElse(guard, _, _) => guard.spec_position(),
            Stmt::Expr(expr) => expr.spec_position(),
            Stmt::While(_, body) => body.spec_position(),
            Stmt::Loop(body) => body.spec_position(),
            Stmt::For(_, _, body) => body.spec_position(),
        }
    }

    /// The place that an error about this statement names.
    #[verifier::when_used_as_spec(spec_position)]
    pub fn position(&self) -> (p: Position)
        ensures
            p == self.spec_position(),
        decreases self,
    {
        match self {
            Stmt::Noop(pos) => *pos,
            Stmt::Let(_, _, pos) => *pos,
            Stmt::Const(_, _, pos) => *pos,
            Stmt::Block(_, pos) => *pos,
            Stmt::Break(pos) => *pos,
            Stmt::ReturnWithVal(_, _, pos) => *pos,
            Stmt::IfElse(guard, _, _) => guard.position(),
            Stmt::Expr(expr) => expr.position(),
            Stmt::While(_, body) => body.position(),
            Stmt::Loop(body) => body.position(),
            Stmt::For(_, _, body) => body.position(),
        }
    }

    /// Evaluating this statement reaches no node that has no value.
    pub open spec fn evaluable(&self) -> bool
        decreases self,
    {
        match self {
            Stmt::IfElse(guard, body, other) => guard.evaluable() && body.evaluable()
                && match other {
                Some(stmt) => stmt.evaluable(),
                None => true,
            },
            Stmt::While(guard, body) => guard.evaluable() && body.evaluable(),
            Stmt::Loop(body) => body.evaluable(),
            Stmt::For(_, expr, body) => expr.evaluable() && body.evaluable(),
            Stmt::Let(_, init, _) => match init {
                Some(expr) => expr.evaluable(),
                None => true,
            },
            Stmt::Const(_, init, _) => init.is_constant(),
            Stmt::Block(stmts, _) => forall|i: int|
                0 <= i < stmts@.len() ==> (#[trigger] stmts@[i]).evaluable(),
            Stmt::Expr(expr) => expr.evaluable(),
            Stmt::ReturnWithVal(value, _, _) => match value {
                Some(expr) => expr.evaluable(),
                None => true,
            },
            _ => true,
        }
    }

    /// No `let` or `const` of this statement stands outside a block: evaluating it leaves
    /// the scope's length as it found it. A block always does.
    pub open spec fn scoped(&self) -> bool
        decreases self,
    {
        match self {
            Stmt::IfElse(guard, body, other) => guard.scoped() && body.scoped() && match other {
                Some(stmt) => stmt.scoped(),
                None => true,
            },
            Stmt::While(guard, body) => guard.scoped() && body.scoped(),
            Stmt::Loop(body) => body.scoped(),
            Stmt::For(_, expr, body) => expr.scoped() && body.scoped(),
            Stmt::Let(_, _, _) => false,
            Stmt::Const(_, _, _) => false,
            Stmt::Expr(expr) => expr.scoped(),
            Stmt::ReturnWithVal(value, _, _) => match value {
                Some(expr) => expr.scoped(),
                None => true,
            },
            _ => true,
        }
    }

    /// Whether the statement leaves the scope as long as it found it where it fails: it is
    /// scoped, or it declares a variable or a constant with a scoped initializer, which is
    /// bound only once the initializer has given its value.
    pub open spec fn fails_cleanly(&self) -> bool {
        match self {
            Stmt::Let(_, init, _) => match init {
                Some(expr) => expr.scoped(),
                None => true,
            },
            Stmt::Const(_, init, _) => init.scoped(),
            _ => self.scoped(),
        }
    }

    /// Whether this statement can be evaluated: see [`Stmt::evaluable`].
    pub fn is_evaluable(&self) -> (r: bool)
        ensures
            r == self.evaluable(),
        decreases self,
    {
        match self {
            Stmt::IfElse(guard, body, other) => guard.is_evaluable() && body.is_evaluable()
                && match other {
                Some(stmt) => stmt.is_evaluable(),
                None => true,
            },
            Stmt::While(guard, body) => guard.is_evaluable() && body.is_evaluable(),
            Stmt::Loop(body) => body.is_evaluable(),
            Stmt::For(_, expr, body) => expr.is_evaluable() && body.is_evaluable(),
            Stmt::Let(_, init, _) => match init {
                Some(expr) => expr.is_evaluable(),
                None => true,
            },
            Stmt::Const(_, init, _) => init.is_constant(),
            Stmt::Block(stmts, _) => evaluable_stmts(stmts),
            Stmt::Expr(expr) => expr.is_evaluable(),
            Stmt::ReturnWithVal(value, _, _) => match value {
                Some(expr) => expr.is_evaluable(),
                None => true,
            },
            _ => true,
        }
    }
}

fn constant_items(items: &Vec<Expr>) -> (r: bool)
    ensures
        r == all_constant(items@),
    decreases items,
{
    let mut i: usize = 0;
    while i < items.len()
        invariant
            i <= items.len(),
            forall|j: int| 0 <= j < i ==> (#[trigger] items@[j]).spec_is_constant(),
        decreases items.len() - i,
    {
        if !items[i].is_constant() {
            return false;
        }
        i = i + 1;
    }
    true
}

fn evaluable_items(items: &Vec<Expr>) -> (r: bool)
    ensures
        r == all_evaluable(items@),
    decreases items,
{
    let mut i: usize = 0;
    while i < items.len()
        invariant
            i <= items.len(),
            forall|j: int| 0 <= j < i ==> (#[trigger] items@[j]).evaluable(),
        decreases items.len() - i,
    {
        if !items[i].is_evaluable() {
            return false;
        }
        i = i + 1;
    }
    true
}

fn evaluable_stmts(items: &Vec<Stmt>) -> (r: bool)
    ensures
        r == all_stmts_evaluable(items@),
    decreases items,
{
    let mut i: usize = 0;
    while i < items.len()
        invariant
            i <= items.len(),
            forall|j: int| 0 <= j < i ==> (#[trigger] items@[j]).evaluable(),
        decreases items.len() - i,
    {
        if !items[i].is_evaluable() {
            return false;
        }
        i = i + 1;
    }
    true
}

/// A constant expression can be evaluated.
pub proof fn lemma_constant_evaluable(expr: &Expr)
    requires
        expr.is_constant(),
    ensures
        expr.evaluable(),
    decreases expr,
{
    match expr {
        Expr::Array(items, _) => {
            assert forall|i: int| 0 <= i < items@.len() implies (
            #[trigger] items@[i]).evaluable() by {
                lemma_constant_evaluable(&items@[i]);
            }
        },
        _ => {},
    }
}

} // verus!
