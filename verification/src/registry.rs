//! The keys under which functions are found: the name and argument types of a native
//! function, and the name and arity of a script function in its sorted table.

use crate::ast::FnDef;
use crate::text::{compare_text, lemma_text_order, text_eq, text_less, Order};
use crate::value::TypeId;
use vstd::prelude::*;

verus! {

/// The key of a native function: its name and the types of its arguments.
#[derive(Debug, PartialEq, Eq, Hash, Clone)]
pub struct FnSpec {
    pub name: String,
    pub args: Option<Vec<TypeId>>,
}

/// The mathematical model of an [`FnSpec`].
pub struct SpecFnSpec {
    pub name: Seq<char>,
    pub args: Option<Seq<TypeId>>,
}

impl View for self::FnSpec {
    type V = SpecFnSpec;

    open spec fn view(&self) -> SpecFnSpec {
        let args = match self.args {
            Some(types) => Some(types@),
            None => None,
        };
        SpecFnSpec { name: self.name@, args }
    }
}

/// The key that a call of `name` with arguments of the types `args` is looked up under.
pub open spec fn call_key(name: Seq<char>, args: Seq<TypeId>) -> SpecFnSpec {
    SpecFnSpec { name, args: Some(args) }
}

/// Whether two lists of types are the same, type for type.
pub fn same_types(a: &Vec<TypeId>, b: &Vec<TypeId>) -> (r: bool)
    ensures
        r == (a@ == b@),
{
    if a.len() != b.len() {
        return false;
    }
    let mut i: usize = 0;
    while i < a.len()
        invariant
            i <= a.len(),
            a.len() == b.len(),
            forall|j: int| 0 <= j < i ==> a@[j] == b@[j],
        decreases a.len() - i,
    {
        if a[i] != b[i] {
            return false;
        }
        i = i + 1;
    }
    assert(a@ =~= b@);
    true
}

impl self::FnSpec {
    /// Whether this is the key of a call of `name` with arguments of the types `args`:
    /// the names are equal and the types are equal one by one.
    pub fn is_key_of(&self, name: &str, args: &Vec<TypeId>) -> (r: bool)
        ensures
            r == (self@ == call_key(name@, args@)),
    {
        match &self.args {
            Some(types) => text_eq(self.name.as_str(), name) && same_types(types, args),
            None => false,
        }
    }
}

/// The key `(n1, a1)` of a script function comes before `(n2, a2)`: by name, then by arity.
pub open spec fn key_less(n1: Seq<char>, a1: int, n2: Seq<char>, a2: int) -> bool {
    text_less(n1, n2) || (n1 == n2 && a1 < a2)
}

/// The script function has this name and takes this many arguments.
pub open spec fn has_key(def: FnDef, name: Seq<char>, arity: int) -> bool {
    def.name@ == name && def.params@.len() == arity
}

/// The table is in ascending order of keys, no key twice.
pub open spec fn sorted(defs: Seq<FnDef>) -> bool {
    forall|i: int, j: int|
        0 <= i < j < defs.len() ==> key_less(
            (#[trigger] defs[i]).name@,
            defs[i].params@.len() as int,
            (#[trigger] defs[j]).name@,
            defs[j].params@.len() as int,
        )
}

/// The index of the script function with this name and arity, if the table holds one.
pub open spec fn script_index(defs: Seq<FnDef>, name: Seq<char>, arity: int) -> Option<int> {
    if exists|i: int| 0 <= i < defs.len() && has_key(#[trigger] defs[i], name, arity) {
        Some(choose|i: int| 0 <= i < defs.len() && has_key(#[trigger] defs[i], name, arity))
    } else {
        None
    }
}

/// In a sorted table the function at `index` is the only one with its key.
pub proof fn lemma_script_index_unique(defs: Seq<FnDef>, index: int)
    requires
        sorted(defs),
        0 <= index < defs.len(),
    ensures
        script_index(defs, defs[index].name@, defs[index].params@.len() as int) == Some(index),
{
    let name = defs[index].name@;
    let arity = defs[index].params@.len() as int;
    assert(has_key(defs[index], name, arity));
    let found = choose|i: int| 0 <= i < defs.len() && has_key(#[trigger] defs[i], name, arity);
    lemma_text_order(name, name, name);
    if found < index {
        assert(key_less(defs[found].name@, arity, defs[index].name@, arity));
    } else if index < found {
        assert(key_less(defs[index].name@, arity, defs[found].name@, arity));
    }
}

impl FnDef {
    /// Compares this function's key with `(name, arity)`: by name, then by arity.
    pub fn compare(&self, name: &str, arity: usize) -> (r: Order)
        ensures
            r == Order::Less <==> key_less(
                self.name@,
                self.params@.len() as int,
                name@,
                arity as int,
            ),
            r == Order::Equal <==> has_key(*self, name@, arity as int),
            r == Order::Greater <==> key_less(
                name@,
                arity as int,
                self.name@,
                self.params@.len() as int,
            ),
    {
        proof {
            lemma_text_order(self.name@, name@, self.name@);
        }
        match compare_text(self.name.as_str(), name) {
            Order::Less => Order::Less,
            Order::Greater => Order::Greater,
            Order::Equal => {
                if self.params.len() < arity {
                    Order::Less
                } else if self.params.len() > arity {
                    Order::Greater
                } else {
                    Order::Equal
                }
            },
        }
    }
}

/// Finds the script function `(name, arity)` by binary search: `Ok` with its index, or
/// `Err` with the index at which it would have to be inserted.
pub fn find_script(defs: &Vec<FnDef>, name: &str, arity: usize) -> (r: Result<usize, usize>)
    requires
        sorted(defs@),
    ensures
        match r {
            Ok(n) => script_index(defs@, name@, arity as int) == Some(n as int) && n < defs@.len()
                && has_key(defs@[n as int], name@, arity as int),
            Err(n) => {
                &&& script_index(defs@, name@, arity as int) is None
                &&& n <= defs@.len()
                &&& forall|i: int|
                    0 <= i < n ==> key_less(
                        (#[trigger] defs@[i]).name@,
                        defs@[i].params@.len() as int,
                        name@,
                        arity as int,
                    )
                &&& forall|i: int|
                    n <= i < defs@.len() ==> key_less(
                        name@,
                        arity as int,
                        (#[trigger] defs@[i]).name@,
                        defs@[i].params@.len() as int,
                    )
            },
        },
{
    let mut lo: usize = 0;
    let mut hi: usize = defs.len();
    while lo < hi
        invariant
            lo <= hi <= defs@.len(),
            sorted(defs@),
            forall|i: int|
                0 <= i < lo ==> key_less(
                    (#[trigger] defs@[i]).name@,
                    defs@[i].params@.len() as int,
                    name@,
                    arity as int,
                ),
            forall|i: int|
                hi <= i < defs@.len() ==> key_less(
                    name@,
                    arity as int,
                    (#[trigger] defs@[i]).name@,
                    defs@[i].params@.len() as int,
                ),
        decreases hi - lo,
    {
        let mid = lo + (hi - lo) / 2;
        match defs[mid].compare(name, arity) {
            Order::Equal => {
                proof {
                    lemma_script_index_unique(defs@, mid as int);
                }
                return Ok(mid);
            },
            Order::Less => {
                proof {
                    assert forall|i: int| 0 <= i < mid + 1 implies key_less(
                        (#[trigger] defs@[i]).name@,
                        defs@[i].params@.len() as int,
                        name@,
                        arity as int,
                    ) by {
                        if i < mid {
                            lemma_text_order(defs@[i].name@, defs@[mid as int].name@, name@);
                        }
                    }
                }
                lo = mid + 1;
            },
            Order::Greater => {
                proof {
                    assert forall|i: int| mid <= i < defs@.len() implies key_less(
                        name@,
                        arity as int,
                        (#[trigger] defs@[i]).name@,
                        defs@[i].params@.len() as int,
                    ) by {
                        if mid < i {
                            lemma_text_order(name@, defs@[mid as int].name@, defs@[i].name@);
                        }
                    }
                }
                hi = mid;
            },
        }
    }
    proof {
        assert forall|i: int| 0 <= i < defs@.len() implies !has_key(
            #[trigger] defs@[i],
            name@,
            arity as int,
        ) by {
            lemma_text_order(name@, name@, name@);
        }
    }
    Err(lo)
}

/// Puts a script function into the table at the place of its key: in the place of the one
/// that had this key, or between its neighbours in the order.
pub fn insert_script(defs: &mut Vec<FnDef>, def: FnDef)
    requires
        sorted(old(defs)@),
    ensures
        sorted(final(defs)@),
        match script_index(old(defs)@, def.name@, def.params@.len() as int) {
            Some(n) => final(defs)@ == old(defs)@.update(n, def),
            None => exists|n: int|
                0 <= n <= old(defs)@.len() && final(defs)@ == #[trigger] old(defs)@.insert(n, def),
        },
        script_index(final(defs)@, def.name@, def.params@.len() as int) matches Some(n)
            && final(defs)@[n] == def,
{
    let ghost name = def.name@;
    let ghost arity = def.params@.len() as int;
    let found = find_script(defs, def.name.as_str(), def.params.len());
    match found {
        Ok(n) => {
            defs[n] = def;
            proof {
                assert forall|i: int, j: int| 0 <= i < j < defs@.len() implies key_less(
                    (#[trigger] defs@[i]).name@,
                    defs@[i].params@.len() as int,
                    (#[trigger] defs@[j]).name@,
                    defs@[j].params@.len() as int,
                ) by {
                    assert(key_less(
                        old(defs)@[i].name@,
                        old(defs)@[i].params@.len() as int,
                        old(defs)@[j].name@,
                        old(defs)@[j].params@.len() as int,
                    ));
                }
                lemma_script_index_unique(defs@, n as int);
            }
        },
        Err(n) => {
            defs.insert(n, def);
            proof {
                assert forall|i: int, j: int| 0 <= i < j < defs@.len() implies key_less(
                    (#[trigger] defs@[i]).name@,
                    defs@[i].params@.len() as int,
                    (#[trigger] defs@[j]).name@,
                    defs@[j].params@.len() as int,
                ) by {
                    let a = if i < n { i } else { i - 1 };
                    let b = if j < n { j } else { j - 1 };
                    if i != n && j != n {
                        assert(key_less(
                            old(defs)@[a].name@,
                            old(defs)@[a].params@.len() as int,
                            old(defs)@[b].name@,
                            old(defs)@[b].params@.len() as int,
                        ));
                    } else if i == n {
                        assert(key_less(
                            name,
                            arity,
                            old(defs)@[b].name@,
                            old(defs)@[b].params@.len() as int,
                        ));
                    } else {
                        assert(key_less(
                            old(defs)@[a].name@,
                            old(defs)@[a].params@.len() as int,
                            name,
                            arity,
                        ));
                    }
                }
                lemma_script_index_unique(defs@, n as int);
            }
        },
    }
}

} // verus!
