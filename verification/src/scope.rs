//! The scope: the stack of variables that a script sees while it runs.

use crate::text::text_eq;
use crate::value::{views, SpecValue, Value};
use vstd::prelude::*;

verus! {

/// Whether a variable may be assigned to.
#[derive(Clone, Copy, Debug, PartialEq, Eq, Hash, Structural)]
pub enum VariableType {
    /// An ordinary variable.
    Normal,
    /// A constant: no assignment may change it.
    Constant,
}

/// One variable of a scope.
pub struct Binding {
    pub name: String,
    pub kind: VariableType,
    pub value: Value,
}

/// The mathematical model of a [`Binding`].
pub struct SpecBinding {
    pub name: Seq<char>,
    pub kind: VariableType,
    pub value: SpecValue,
}

impl View for Binding {
    type V = SpecBinding;

    open spec fn view(&self) -> SpecBinding {
        SpecBinding { name: self.name@, kind: self.kind, value: self.value@ }
    }
}

/// The index of the newest binding of `name`, if the scope has one.
pub open spec fn lookup(s: Seq<SpecBinding>, name: Seq<char>) -> Option<int>
    decreases s.len(),
{
    if s.len() == 0 {
        None
    } else if s.last().name == name {
        Some(s.len() - 1)
    } else {
        lookup(s.drop_last(), name)
    }
}

/// `after` is `before` with the binding at `index` holding `value`.
pub open spec fn with_value(
    before: Seq<SpecBinding>,
    index: int,
    value: SpecValue,
) -> Seq<SpecBinding> {
    before.update(index, SpecBinding { value, ..before[index] })
}

/// `after` has every binding of `before` at its index, under its name and of its kind.
/// Values may differ, and `after` may hold more bindings.
pub open spec fn extends(before: Seq<SpecBinding>, after: Seq<SpecBinding>) -> bool {
    &&& before.len() <= after.len()
    &&& forall|i: int|
        0 <= i < before.len() ==> (#[trigger] after[i]).name == before[i].name && after[i].kind
            == before[i].kind
}

/// Every binding of `name` in the scope is a constant.
pub open spec fn only_constant(scope: Seq<SpecBinding>, name: Seq<char>) -> bool {
    forall|i: int|
        0 <= i < scope.len() && (#[trigger] scope[i]).name == name ==> scope[i].kind
            == VariableType::Constant
}

/// A scope that holds `name` as an ordinary variable does not hold it as a constant only.
pub proof fn lemma_not_only_constant(scope: Seq<SpecBinding>, index: int, name: Seq<char>)
    requires
        0 <= index < scope.len(),
        scope[index].name == name,
        scope[index].kind == VariableType::Normal,
    ensures
        !only_constant(scope, name),
{
}

/// What [`lookup`] finds is the last binding of that name, and where it finds none there is none.
pub proof fn lemma_lookup(s: Seq<SpecBinding>, name: Seq<char>)
    ensures
        match lookup(s, name) {
            Some(i) => {
                &&& 0 <= i < s.len()
                &&& s[i].name == name
                &&& forall|j: int| i < j < s.len() ==> (#[trigger] s[j]).name != name
            },
            None => forall|j: int| 0 <= j < s.len() ==> (#[trigger] s[j]).name != name,
        },
    decreases s.len(),
{
    if s.len() > 0 && s.last().name != name {
        lemma_lookup(s.drop_last(), name);
        assert forall|j: int| 0 <= j < s.len() - 1 implies s[j] == s.drop_last()[j] by {}
        match lookup(s, name) {
            Some(i) => {
                assert forall|j: int| i < j < s.len() implies (#[trigger] s[j]).name != name by {
                    if j < s.len() - 1 {
                        assert(s.drop_last()[j].name != name);
                    }
                }
            },
            None => {
                assert forall|j: int| 0 <= j < s.len() implies (#[trigger] s[j]).name != name by {
                    if j < s.len() - 1 {
                        assert(s.drop_last()[j].name != name);
                    }
                }
            },
        }
    }
}

/// The variables of a running script, oldest first. A name is looked up from the newest
/// binding back, so a later binding hides an earlier one of the same name.
pub struct Scope {
    entries: Vec<Binding>,
}

impl View for Scope {
    type V = Seq<SpecBinding>;

    closed spec fn view(&self) -> Seq<SpecBinding> {
        Seq::new(self.entries@.len(), |i: int| self.entries@[i]@)
    }
}

impl Scope {
    /// An empty scope.
    pub fn new() -> (r: Scope)
        ensures
            r@ == Seq::<SpecBinding>::empty(),
    {
        Scope { entries: Vec::new() }
    }

    /// The number of bindings.
    pub fn len(&self) -> (r: usize)
        ensures
            r == self@.len(),
    {
        self.entries.len()
    }

    /// Adds an ordinary variable as the newest binding.
    pub fn push(&mut self, name: String, value: Value)
        ensures
            final(self)@ == old(self)@.push(
                SpecBinding { name: name@, kind: VariableType::Normal, value: value@ },
            ),
    {
        self.push_dynamic(name, VariableType::Normal, value);
    }

    /// Adds a variable of the given kind as the newest binding.
    pub fn push_dynamic(&mut self, name: String, kind: VariableType, value: Value)
        ensures
            final(self)@ == old(self)@.push(SpecBinding { name: name@, kind, value: value@ }),
    {
        self.entries.push(Binding { name, kind, value });
    }

    /// Removes the newest binding and hands it out; `None` where the scope is empty.
    pub fn pop(&mut self) -> (r: Option<(String, VariableType, Value)>)
        ensures
            old(self)@.len() == 0 ==> r is None && final(self)@ == old(self)@,
            old(self)@.len() > 0 ==> final(self)@ == old(self)@.drop_last() && match r {
                Some((name, kind, value)) => (SpecBinding { name: name@, kind, value: value@ })
                    == old(self)@.last(),
                None => false,
            },
    {
        match self.entries.pop() {
            Some(binding) => Some((binding.name, binding.kind, binding.value)),
            None => None,
        }
    }

    /// Cuts the scope back to its oldest `size` bindings. A scope that holds no more than
    /// that stays as it is.
    pub fn rewind(&mut self, size: usize)
        ensures
            size <= old(self)@.len() ==> final(self)@ == old(self)@.subrange(0, size as int),
            size > old(self)@.len() ==> final(self)@ == old(self)@,
    {
        self.entries.truncate(size);
    }

    /// Adds the given variables, in their order, as the newest bindings.
    #[verifier::loop_isolation(false)]
    pub fn extend(&mut self, items: Vec<(String, VariableType, Value)>)
        ensures
            final(self)@ == old(self)@ + Seq::new(
                items@.len(),
                |i: int|
                    SpecBinding { name: items@[i].0@, kind: items@[i].1, value: items@[i].2@ },
            ),
    {
        let mut items = items;
        let ghost all = items@;
        let ghost added = Seq::new(
            all.len(),
            |i: int| SpecBinding { name: all[i].0@, kind: all[i].1, value: all[i].2@ },
        );
        let mut rest: Vec<(String, VariableType, Value)> = Vec::new();
        while items.len() > 0
            invariant
                rest@.len() + items@.len() == all.len(),
                forall|i: int| 0 <= i < items@.len() ==> items@[i] == all[i],
                forall|i: int|
                    0 <= i < rest@.len() ==> rest@[i] == all[all.len() - 1 - i],
            decreases items.len(),
        {
            let item = items.pop().unwrap();
            rest.push(item);
        }
        while rest.len() > 0
            invariant
                rest@.len() <= all.len(),
                forall|i: int|
                    0 <= i < rest@.len() ==> rest@[i] == all[all.len() - 1 - i],
                self@ == old(self)@ + added.subrange(0, all.len() - rest@.len()),
            decreases rest.len(),
        {
            let ghost k = all.len() - rest@.len();
            let (name, kind, value) = rest.pop().unwrap();
            self.push_dynamic(name, kind, value);
            assert(added.subrange(0, k + 1) =~= added.subrange(0, k).push(added[k]));
        }
        assert(added.subrange(0, all.len() as int) =~= added);
    }

    /// Looks a name up. Of its newest binding it gives the index, the depth (how many
    /// bindings are newer than it), the kind and a copy of the value.
    pub fn get(&self, name: &str) -> (r: Option<(usize, usize, VariableType, Value)>)
        ensures
            match r {
                Some((index, depth, kind, value)) => {
                    &&& lookup(self@, name@) == Some(index as int)
                    &&& index < self@.len()
                    &&& depth == self@.len() - 1 - index
                    &&& self@[index as int].name == name@
                    &&& kind == self@[index as int].kind
                    &&& value@ == self@[index as int].value
                },
                None => lookup(self@, name@) is None,
            },
    {
        let len = self.entries.len();
        let mut i: usize = len;
        proof {
            assert(self@.subrange(0, i as int) =~= self@);
        }
        while i > 0
            invariant
                i <= self.entries.len(),
                len == self.entries.len(),
                lookup(self@, name@) == lookup(self@.subrange(0, i as int), name@),
            decreases i,
        {
            i = i - 1;
            proof {
                let prefix = self@.subrange(0, i as int + 1);
                assert(prefix.drop_last() =~= self@.subrange(0, i as int));
                assert(prefix.last() == self@[i as int]);
            }
            if text_eq(self.entries[i].name.as_str(), name) {
                let kind = self.entries[i].kind;
                let value = self.entries[i].value.clone();
                return Some((i, len - 1 - i, kind, value));
            }
        }
        None
    }

    /// The value of the binding at `index`.
    pub fn value_at(&self, index: usize) -> (r: &Value)
        requires
            index < self@.len(),
        ensures
            r@ == self@[index as int].value,
    {
        &self.entries[index].value
    }

    /// The value of the binding that [`Scope::get`] found at `index` under `name`, to be
    /// changed in place.
    pub fn get_mut(&mut self, name: &str, index: usize) -> (r: &mut Value)
        requires
            index < old(self)@.len(),
            old(self)@[index as int].name == name@,
        ensures
            r@ == old(self)@[index as int].value,
            final(self)@ == with_value(old(self)@, index as int, final(r)@),
    {
        &mut self.entries[index].value
    }

    /// The items of the array that the binding at `index` holds, to be changed in place.
    pub fn get_array_mut(&mut self, name: &str, index: usize) -> (r: &mut Vec<Value>)
        requires
            index < old(self)@.len(),
            old(self)@[index as int].name == name@,
            old(self)@[index as int].value is Array,
        ensures
            SpecValue::Array(views(r@)) == old(self)@[index as int].value,
            final(self)@ == with_value(
                old(self)@,
                index as int,
                SpecValue::Array(views(final(r)@)),
            ),
    {
        match &mut self.entries[index].value {
            Value::Array(items) => items,
            _ => vstd::pervasive::unreached(),
        }
    }

    /// The text of the string that the binding at `index` holds, to be changed in place.
    pub fn get_string_mut(&mut self, name: &str, index: usize) -> (r: &mut String)
        requires
            index < old(self)@.len(),
            old(self)@[index as int].name == name@,
            old(self)@[index as int].value is Str,
        ensures
            SpecValue::Str(r@) == old(self)@[index as int].value,
            final(self)@ == with_value(old(self)@, index as int, SpecValue::Str(final(r)@)),
    {
        match &mut self.entries[index].value {
            Value::Str(s) => s,
            _ => vstd::pervasive::unreached(),
        }
    }
}

} // verus!
