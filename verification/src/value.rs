//! Dynamic values: what a script computes with, and the runtime identity of each value's type.

use vstd::prelude::*;

verus! {

/// The integer type of scripts.
pub type INT = i64;

/// The runtime identity of a value's type. The built-in kinds have one each; a payload
/// that only the host understands carries the number its host gave to its type.
#[derive(Clone, Copy, Debug, PartialEq, Eq, Hash, Structural)]
pub enum TypeId {
    Unit,
    Bool,
    Int,
    Char,
    Str,
    Array,
    Custom(u64),
}

/// A dynamically typed value.
///
/// `Custom` is a payload of the host: the number and the name of its type, and what the
/// host keeps in it. The engine carries and copies such a value and looks only at its type.
#[derive(Debug, PartialEq)]
pub enum Value {
    Unit,
    Bool(bool),
    Int(INT),
    Char(char),
    Str(String),
    Array(Vec<Value>),
    Custom(u64, String, Vec<Value>),
}

/// The mathematical model of a [`Value`].
pub enum SpecValue {
    Unit,
    Bool(bool),
    Int(int),
    Char(char),
    Str(Seq<char>),
    Array(Seq<SpecValue>),
    Custom(u64, Seq<char>, Seq<SpecValue>),
}

impl SpecValue {
    /// The runtime identity of the value's type.
    pub open spec fn type_id(self) -> TypeId {
        match self {
            SpecValue::Unit => TypeId::Unit,
            SpecValue::Bool(_) => TypeId::Bool,
            SpecValue::Int(_) => TypeId::Int,
            SpecValue::Char(_) => TypeId::Char,
            SpecValue::Str(_) => TypeId::Str,
            SpecValue::Array(_) => TypeId::Array,
            SpecValue::Custom(id, _, _) => TypeId::Custom(id),
        }
    }

    /// The raw name of the value's type, before any pretty name is looked up.
    pub open spec fn raw_name(self) -> Seq<char> {
        match self {
            SpecValue::Unit => "()"@,
            SpecValue::Bool(_) => "bool"@,
            SpecValue::Int(_) => "i64"@,
            SpecValue::Char(_) => "char"@,
            SpecValue::Str(_) => "alloc::string::String"@,
            SpecValue::Array(_) => "alloc::vec::Vec<Value>"@,
            SpecValue::Custom(_, name, _) => name,
        }
    }
}

impl View for Value {
    type V = SpecValue;

    open spec fn view(&self) -> SpecValue
        decreases self,
    {
        match self {
            Value::Unit => SpecValue::Unit,
            Value::Bool(b) => SpecValue::Bool(*b),
            Value::Int(i) => SpecValue::Int(*i as int),
            Value::Char(c) => SpecValue::Char(*c),
            Value::Str(s) => SpecValue::Str(s@),
            Value::Array(items) => SpecValue::Array(views(items@)),
            Value::Custom(id, name, fields) => SpecValue::Custom(*id, name@, views(fields@)),
        }
    }
}

/// The models of a sequence of values, one for one.
pub open spec fn views(s: Seq<Value>) -> Seq<SpecValue>
    decreases s,
{
    Seq::new(
        s.len(),
        |i: int|
            if 0 <= i < s.len() {
                s[i]@
            } else {
                SpecValue::Unit
            },
    )
}

/// The models of a sequence are as many as its values.
pub broadcast proof fn lemma_views_len(s: Seq<Value>)
    ensures
        #[trigger] views(s).len() == s.len(),
{
}

/// The model at an index is the model of the value at that index.
pub broadcast proof fn lemma_views_index(s: Seq<Value>, i: int)
    requires
        0 <= i < s.len(),
    ensures
        #[trigger] views(s)[i] == s[i]@,
{
}

pub broadcast group group_views {
    lemma_views_len,
    lemma_views_index,
}

/// The type identities of a sequence of values, one for one.
pub open spec fn type_ids(s: Seq<SpecValue>) -> Seq<TypeId> {
    Seq::new(s.len(), |i: int| s[i].type_id())
}

/// Copies a list of values.
pub fn clone_values(items: &Vec<Value>) -> (out: Vec<Value>)
    ensures
        views(out@) == views(items@),
    decreases items,
{
    let mut out: Vec<Value> = Vec::new();
    let mut i: usize = 0;
    while i < items.len()
        invariant
            i <= items.len(),
            out.len() == i,
            forall|j: int| 0 <= j < i ==> out@[j]@ == items@[j]@,
        decreases items.len() - i,
    {
        out.push(items[i].clone());
        i = i + 1;
    }
    assert(views(out@) =~= views(items@));
    out
}

impl Clone for Value {
    /// A deep copy: the copy has the same model as the value it was made of.
    fn clone(&self) -> (r: Value)
        ensures
            r@ == self@,
        decreases self,
    {
        match self {
            Value::Unit => Value::Unit,
            Value::Bool(b) => Value::Bool(*b),
            Value::Int(i) => Value::Int(*i),
            Value::Char(c) => Value::Char(*c),
            Value::Str(s) => Value::Str(s.clone()),
            Value::Array(items) => Value::Array(clone_values(items)),
            Value::Custom(id, name, fields) => Value::Custom(
                *id,
                name.clone(),
                clone_values(fields),
            ),
        }
    }
}

impl Value {
    /// The runtime identity of the value's type.
    pub fn type_id(&self) -> (r: TypeId)
        ensures
            r == self@.type_id(),
    {
        match self {
            Value::Unit => TypeId::Unit,
            Value::Bool(_) => TypeId::Bool,
            Value::Int(_) => TypeId::Int,
            Value::Char(_) => TypeId::Char,
            Value::Str(_) => TypeId::Str,
            Value::Array(_) => TypeId::Array,
            Value::Custom(id, _, _) => TypeId::Custom(*id),
        }
    }

    /// The raw name of the value's type.
    pub fn raw_name(&self) -> (r: String)
        ensures
            r@ == self@.raw_name(),
    {
        match self {
            Value::Unit => "()".to_string(),
            Value::Bool(_) => "bool".to_string(),
            Value::Int(_) => "i64".to_string(),
            Value::Char(_) => "char".to_string(),
            Value::Str(_) => "alloc::string::String".to_string(),
            Value::Array(_) => "alloc::vec::Vec<Value>".to_string(),
            Value::Custom(_, name, _) => name.clone(),
        }
    }
}

/// The type identities of the given values, in their order.
pub fn type_ids_of(args: &[Value]) -> (r: Vec<TypeId>)
    ensures
        r@ == type_ids(views(args@)),
{
    let mut out: Vec<TypeId> = Vec::new();
    let mut i: usize = 0;
    while i < args.len()
        invariant
            i <= args.len(),
            out.len() == i,
            forall|j: int| 0 <= j < i ==> out@[j] == args@[j]@.type_id(),
        decreases args.len() - i,
    {
        out.push(args[i].type_id());
        i = i + 1;
    }
    assert(out@ =~= type_ids(views(args@)));
    out
}

} // verus!
