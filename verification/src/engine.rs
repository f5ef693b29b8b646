//! The engine: the tables of functions, iterators and type names that an evaluation reads,
//! and the rule by which a call finds its function.

use crate::ast::{FnDef, Position};
use crate::error::{outcome, EvalAltResult, SpecError};
use crate::optimize::OptimizationLevel;
use crate::registry::{
    call_key, find_script, has_key, insert_script, script_index, sorted, SpecFnSpec,
};
use crate::text::{is_prefix, joined, starts_with, text_eq, texts};
use crate::value::{type_ids, type_ids_of, views, SpecValue, TypeId, Value};
use vstd::hash_map::StringHashMap;
use vstd::prelude::*;
use vstd::string::*;

verus! {

/// The function whose text goes to the sink of `print`.
pub const KEYWORD_PRINT: &'static str = "print";

/// The function whose text goes to the sink of `debug`.
pub const KEYWORD_DEBUG: &'static str = "debug";

/// The function that prints its arguments as they stand in the syntax tree.
pub const KEYWORD_DUMP_AST: &'static str = "dump_ast";

/// The function that gives the name of the type of its argument.
pub const KEYWORD_TYPE_OF: &'static str = "type_of";

/// What the name of the function that reads a property begins with.
pub const FUNC_GETTER: &'static str = "get$";

/// What the name of the function that writes a property begins with.
pub const FUNC_SETTER: &'static str = "set$";

/// A function of the host. It is handed the arguments of the call, which it may change in
/// place, and the place of the call in the source.
pub trait NativeFunction {
    /// What the function is known to do with given arguments at a given place: what it
    /// ends in and what it leaves in the arguments. `None` says that nothing is known, and
    /// that is what a function says of itself unless it says more.
    open spec fn model(&self, args: Seq<SpecValue>, pos: Position) -> Option<
        (Result<SpecValue, SpecError>, Seq<SpecValue>),
    > {
        None
    }

    /// Calls the function. Where the function says what it does, it does that.
    fn call(&self, args: &mut [Value], pos: Position) -> (r: Result<Value, EvalAltResult>)
        ensures
            self.model(views(old(args)@), pos) matches Some((o, after)) ==> outcome(r) == o
                && views(final(args)@) == after,
    ;
}

/// What a `for` statement walks over: the values that a value of some type holds.
pub trait TypeIterator {
    /// What the iterator is known to give for a value. `None` says that nothing is known,
    /// and that is what an iterator says of itself unless it says more.
    open spec fn model(&self, value: SpecValue) -> Option<Seq<SpecValue>> {
        None
    }

    /// The values that the value holds. Where the iterator says what it gives, it gives
    /// that.
    fn iterate(&self, value: &Value) -> (r: Vec<Value>)
        ensures
            self.model(value@) matches Some(items) ==> views(r@) == items,
    ;
}

/// Where the texts of `print` and `debug` go.
pub trait OutputSink {
    fn emit(&self, text: &str);
}

/// A native function under its key.
struct NativeEntry<F> {
    spec: crate::registry::FnSpec,
    func: F,
}

/// An iterator under the type it is for.
struct IteratorEntry<I> {
    type_id: TypeId,
    iter: I,
}

/// What a call resolves to.
#[derive(Clone, Copy, Debug, PartialEq, Eq, Structural)]
pub enum Target {
    /// The script function at this index of the table.
    Script(usize),
    /// The native function at this index of the table.
    Native(usize),
    /// The built-in `type_of`.
    TypeOf,
    /// A getter that nobody registered.
    UnknownGetter,
    /// A setter that nobody registered.
    UnknownSetter,
    /// The default value that the call came with.
    Default,
    /// Nothing.
    NotFound,
}

/// The scripting engine.
///
/// `F` is the type of the host's functions, `I` that of its iterators, `S` that of the
/// sinks that `print` and `debug` write to.
pub struct Engine<F, I, S> {
    optimization_level: OptimizationLevel,
    ext_functions: Vec<NativeEntry<F>>,
    script_functions: Vec<FnDef>,
    type_iterators: Vec<IteratorEntry<I>>,
    type_names: StringHashMap<String>,
    on_print: S,
    on_debug: S,
    max_operations: u64,
}

/// The index of the first native function under this key.
pub open spec fn native_index(keys: Seq<SpecFnSpec>, key: SpecFnSpec) -> Option<int> {
    keys.index_of_first(key)
}

/// The text of the error for a property that has no getter.
pub open spec fn unknown_getter_text(name: Seq<char>) -> Seq<char> {
    "- property '"@ + name.subrange(FUNC_GETTER@.len() as int, name.len() as int)
        + "' unknown or write-only"@
}

/// The text of the error for a property that has no setter.
pub open spec fn unknown_setter_text(name: Seq<char>) -> Seq<char> {
    "- property '"@ + name.subrange(FUNC_SETTER@.len() as int, name.len() as int)
        + "' unknown or read-only"@
}

/// The text of the error for a call that found no function: the name and, in brackets,
/// the names of the argument types.
pub open spec fn not_found_text(name: Seq<char>, type_names: Seq<Seq<char>>) -> Seq<char> {
    name + " ("@ + joined(type_names, ", "@) + ")"@
}

/// What `print` and `debug` write for a value: the text of a string, and a fixed complaint
/// for anything else.
pub open spec fn printed_text(value: SpecValue) -> Seq<char> {
    match value {
        SpecValue::Str(s) => s,
        _ => "error: not a string"@,
    }
}

impl<F: NativeFunction, I: TypeIterator, S: OutputSink> Engine<F, I, S> {
    /// The script functions, in the order of their keys.
    pub closed spec fn scripts(&self) -> Seq<FnDef> {
        self.script_functions@
    }

    /// The keys of the native functions, in the order of their registration.
    pub closed spec fn native_keys(&self) -> Seq<SpecFnSpec> {
        Seq::new(self.ext_functions@.len(), |i: int| self.ext_functions@[i].spec@)
    }

    /// The native functions, each at the index of its key.
    pub closed spec fn native_functions(&self) -> Seq<F> {
        Seq::new(self.ext_functions@.len(), |i: int| self.ext_functions@[i].func)
    }

    /// The iterators, each at the index of its type.
    pub closed spec fn iterators(&self) -> Seq<I> {
        Seq::new(self.type_iterators@.len(), |i: int| self.type_iterators@[i].iter)
    }

    /// What walking over a value gives, where the iterator for its type says what it gives.
    pub open spec fn walked(&self, value: SpecValue) -> Option<Seq<SpecValue>> {
        match self.iterator_types().index_of_first(value.type_id()) {
            Some(i) => if 0 <= i < self.iterators().len() {
                self.iterators()[i].model(value)
            } else {
                None
            },
            None => None,
        }
    }

    /// The sink that `print` writes to.
    pub closed spec fn print_sink(&self) -> S {
        self.on_print
    }

    /// The sink that `debug` writes to.
    pub closed spec fn debug_sink(&self) -> S {
        self.on_debug
    }

    /// The types that have an iterator.
    pub closed spec fn iterator_types(&self) -> Seq<TypeId> {
        Seq::new(self.type_iterators@.len(), |i: int| self.type_iterators@[i].type_id)
    }

    /// The pretty names of types, by their raw names.
    pub closed spec fn pretty_names(&self) -> Map<Seq<char>, Seq<char>> {
        Map::new(
            |raw: Seq<char>| self.type_names@.contains_key(raw),
            |raw: Seq<char>| self.type_names@[raw]@,
        )
    }

    /// The number of operations that one evaluation may spend.
    pub closed spec fn operations_limit(&self) -> u64 {
        self.max_operations
    }

    /// The level of optimization asked for.
    pub closed spec fn optimization(&self) -> OptimizationLevel {
        self.optimization_level
    }

    /// The table of script functions is sorted and every body in it can be evaluated.
    pub open spec fn well_formed(&self) -> bool {
        &&& sorted(self.scripts())
        &&& forall|i: int|
            0 <= i < self.scripts().len() ==> (#[trigger] self.scripts()[i]).body.evaluable()
    }

    /// The two engines hold the same script functions.
    pub open spec fn same_scripts(&self, other: &Self) -> bool {
        self.scripts() == other.scripts()
    }

    /// The two engines hold the same native functions under the same keys.
    pub open spec fn same_natives(&self, other: &Self) -> bool {
        self.native_keys() == other.native_keys() && self.native_functions()
            == other.native_functions()
    }

    /// The two engines hold the same iterators for the same types.
    pub open spec fn same_iterators(&self, other: &Self) -> bool {
        self.iterator_types() == other.iterator_types() && self.iterators() == other.iterators()
    }

    /// The two engines show types under the same names.
    pub open spec fn same_names(&self, other: &Self) -> bool {
        self.pretty_names() == other.pretty_names()
    }

    /// The two engines write to the same sinks.
    pub open spec fn same_sinks(&self, other: &Self) -> bool {
        self.print_sink() == other.print_sink() && self.debug_sink() == other.debug_sink()
    }

    /// The two engines have the same budget of operations and level of optimization.
    pub open spec fn same_settings(&self, other: &Self) -> bool {
        self.operations_limit() == other.operations_limit() && self.optimization()
            == other.optimization()
    }

    /// The name that a type is shown under: its pretty name if one is registered, else its
    /// raw name.
    pub open spec fn pretty(&self, raw: Seq<char>) -> Seq<char> {
        if self.pretty_names().contains_key(raw) {
            self.pretty_names()[raw]
        } else {
            raw
        }
    }

    /// The names that the types of the given values are shown under.
    pub open spec fn pretty_types(&self, args: Seq<SpecValue>) -> Seq<Seq<char>> {
        Seq::new(args.len(), |i: int| self.pretty(args[i].raw_name()))
    }

    /// What a call of `name` with arguments of the given types resolves to.
    ///
    /// A script function of that name and arity comes first, then a native function under
    /// exactly that name and those types, then the built-in `type_of`; a getter or setter
    /// that was not found is an error of its own; then comes the default value, if the call
    /// has one.
    pub open spec fn spec_resolve(
        &self,
        name: Seq<char>,
        types: Seq<TypeId>,
        has_default: bool,
    ) -> Target {
        if let Some(n) = script_index(self.scripts(), name, types.len() as int) {
            Target::Script(n as usize)
        } else if let Some(i) = native_index(self.native_keys(), call_key(name, types)) {
            Target::Native(i as usize)
        } else if name == KEYWORD_TYPE_OF@ && types.len() == 1 {
            Target::TypeOf
        } else if is_prefix(FUNC_GETTER@, name) {
            Target::UnknownGetter
        } else if is_prefix(FUNC_SETTER@, name) {
            Target::UnknownSetter
        } else if has_default {
            Target::Default
        } else {
            Target::NotFound
        }
    }

    /// A new engine: no functions and no iterators, the pretty names of the built-in types,
    /// the given sinks, and a budget of operations that no script will exhaust.
    pub fn new(on_print: S, on_debug: S) -> (r: Self)
        ensures
            r.well_formed(),
            r.scripts().len() == 0,
            r.native_keys().len() == 0,
            r.iterator_types().len() == 0,
            r.pretty_names() == Map::<Seq<char>, Seq<char>>::empty().insert(
                SpecValue::Array(Seq::empty()).raw_name(),
                "array"@,
            ).insert(SpecValue::Str(Seq::empty()).raw_name(), "string"@).insert(
                "Value"@,
                "dynamic"@,
            ),
            r.operations_limit() == u64::MAX,
            r.optimization() == OptimizationLevel::Simple,
            r.print_sink() == on_print,
            r.debug_sink() == on_debug,
    {
        let mut type_names: StringHashMap<String> = StringHashMap::new();
        type_names.insert(Value::Array(Vec::new()).raw_name(), "array".to_string());
        type_names.insert(Value::Str(String::new()).raw_name(), "string".to_string());
        type_names.insert("Value".to_string(), "dynamic".to_string());
        let r = Engine {
            optimization_level: OptimizationLevel::Simple,
            ext_functions: Vec::new(),
            script_functions: Vec::new(),
            type_iterators: Vec::new(),
            type_names,
            on_print,
            on_debug,
            max_operations: u64::MAX,
        };
        r
    }

    /// Sets the level of optimization asked of a compiler.
    pub fn set_optimization_level(&mut self, optimization_level: OptimizationLevel)
        ensures
            final(self).same_scripts(old(self)),
            final(self).same_natives(old(self)),
            final(self).same_iterators(old(self)),
            final(self).same_names(old(self)),
            final(self).same_sinks(old(self)),
            final(self).operations_limit() == old(self).operations_limit(),
            final(self).optimization() == optimization_level,
    {
        self.optimization_level = optimization_level;
    }

    /// Sets the number of operations that one evaluation may spend.
    pub fn set_max_operations(&mut self, limit: u64)
        ensures
            final(self).same_scripts(old(self)),
            final(self).same_natives(old(self)),
            final(self).same_iterators(old(self)),
            final(self).same_names(old(self)),
            final(self).same_sinks(old(self)),
            final(self).optimization() == old(self).optimization(),
            final(self).operations_limit() == limit,
    {
        self.max_operations = limit;
    }

    /// The number of operations that one evaluation may spend.
    pub fn max_operations(&self) -> (r: u64)
        ensures
            r == self.operations_limit(),
    {
        self.max_operations
    }

    /// Removes every script function. What the host registered stays.
    pub fn clear_functions(&mut self)
        ensures
            final(self).same_natives(old(self)),
            final(self).same_iterators(old(self)),
            final(self).same_names(old(self)),
            final(self).same_sinks(old(self)),
            final(self).same_settings(old(self)),
            final(self).scripts().len() == 0,
            final(self).well_formed(),
    {
        self.script_functions.clear();
    }

    /// Defines a script function: it takes the place of the one with its name and arity,
    /// or its place in the order of keys.
    pub fn load_script_function(&mut self, def: FnDef)
        requires
            old(self).well_formed(),
            def.body.evaluable(),
        ensures
            final(self).same_natives(old(self)),
            final(self).same_iterators(old(self)),
            final(self).same_names(old(self)),
            final(self).same_sinks(old(self)),
            final(self).same_settings(old(self)),
            final(self).well_formed(),
            match script_index(old(self).scripts(), def.name@, def.params@.len() as int) {
                Some(n) => final(self).scripts() == old(self).scripts().update(n, def),
                None => exists|n: int|
                    0 <= n <= old(self).scripts().len() && final(self).scripts()
                        == #[trigger] old(self).scripts().insert(n, def),
            },
            script_index(final(self).scripts(), def.name@, def.params@.len() as int) matches Some(n)
                && final(self).scripts()[n] == def,
    {
        insert_script(&mut self.script_functions, def);
    }

    /// The index of the native function under the key of `name` and `types`, if there is one.
    fn find_native(&self, name: &str, types: &Vec<TypeId>) -> (r: Option<usize>)
        ensures
            match r {
                Some(i) => native_index(self.native_keys(), call_key(name@, types@)) == Some(
                    i as int,
                ) && i < self.native_keys().len(),
                None => native_index(self.native_keys(), call_key(name@, types@)) is None,
            },
    {
        let ghost keys = self.native_keys();
        let ghost key = call_key(name@, types@);
        proof {
            keys.index_of_first_ensures(key);
        }
        let mut i: usize = 0;
        while i < self.ext_functions.len()
            invariant
                i <= self.ext_functions.len(),
                keys == self.native_keys(),
                key == call_key(name@, types@),
                forall|j: int| 0 <= j < i ==> keys[j] != key,
            decreases self.ext_functions.len() - i,
        {
            if self.ext_functions[i].spec.is_key_of(name, types) {
                proof {
                    keys.index_of_first_ensures(key);
                    assert(keys[i as int] == key);
                }
                return Some(i);
            }
            i = i + 1;
        }
        proof {
            keys.index_of_first_ensures(key);
        }
        None
    }

    /// Registers a native function under a name and the types of its arguments. A function
    /// that was registered under the same key gives way to it.
    pub fn register_fn(&mut self, name: &str, args: Vec<TypeId>, f: F)
        ensures
            final(self).same_scripts(old(self)),
            final(self).same_iterators(old(self)),
            final(self).same_names(old(self)),
            final(self).same_sinks(old(self)),
            final(self).same_settings(old(self)),
            match native_index(old(self).native_keys(), call_key(name@, args@)) {
                Some(i) => final(self).native_keys() == old(self).native_keys(),
                None => final(self).native_keys() == old(self).native_keys().push(
                    call_key(name@, args@),
                ),
            },
            native_index(final(self).native_keys(), call_key(name@, args@)) matches Some(i)
                && final(self).native_functions() == (if i < old(self).native_functions().len() {
                old(self).native_functions().update(i, f)
            } else {
                old(self).native_functions().push(f)
            }),
    {
        let ghost key = call_key(name@, args@);
        match self.find_native(name, &args) {
            Some(i) => {
                self.ext_functions[i].func = f;
                proof {
                    assert(final(self).native_keys() =~= old(self).native_keys());
                }
            },
            None => {
                let spec = crate::registry::FnSpec { name: name.to_string(), args: Some(args) };
                self.ext_functions.push(NativeEntry { spec, func: f });
                proof {
                    let keys = self.native_keys();
                    assert(keys[keys.len() - 1] == key);
                    keys.index_of_first_ensures(key);
                    old(self).native_keys().index_of_first_ensures(key);
                    assert(keys.index_of_first(key) == Some(keys.len() - 1)) by {
                        let found = keys.index_of_first(key)->0;
                        if found < keys.len() - 1 {
                            assert(old(self).native_keys()[found] == key);
                        }
                    }
                }
            },
        }
    }

    /// The index of the iterator for the type, if there is one.
    fn find_iterator(&self, type_id: TypeId) -> (r: Option<usize>)
        ensures
            match r {
                Some(i) => i < self.iterator_types().len() && self.iterator_types()[i as int]
                    == type_id && self.iterator_types().index_of_first(type_id) == Some(i as int),
                None => !self.iterator_types().contains(type_id),
            },
    {
        let mut i: usize = 0;
        while i < self.type_iterators.len()
            invariant
                i <= self.type_iterators.len(),
                forall|j: int| 0 <= j < i ==> self.iterator_types()[j] != type_id,
            decreases self.type_iterators.len() - i,
        {
            if self.type_iterators[i].type_id == type_id {
                proof {
                    self.iterator_types().index_of_first_ensures(type_id);
                    assert(self.iterator_types()[i as int] == type_id);
                }
                return Some(i);
            }
            i = i + 1;
        }
        None
    }

    /// Whether values of the type can be walked over by `for`.
    pub fn has_iterator(&self, type_id: TypeId) -> (r: bool)
        ensures
            r == self.iterator_types().contains(type_id),
    {
        self.find_iterator(type_id).is_some()
    }

    /// Registers the iterator for a type. One that was registered for the type gives way to it.
    pub fn register_iterator(&mut self, type_id: TypeId, iter: I)
        ensures
            final(self).same_scripts(old(self)),
            final(self).same_natives(old(self)),
            final(self).same_names(old(self)),
            final(self).same_sinks(old(self)),
            final(self).same_settings(old(self)),
            old(self).iterator_types().contains(type_id) ==> final(self).iterator_types() == old(
                self,
            ).iterator_types(),
            !old(self).iterator_types().contains(type_id) ==> final(self).iterator_types() == old(
                self,
            ).iterator_types().push(type_id),
            exists|i: int|
                0 <= i < final(self).iterator_types().len() && final(self).iterator_types()[i]
                    == type_id && #[trigger] final(self).iterators()[i] == iter,
    {
        match self.find_iterator(type_id) {
            Some(i) => {
                self.type_iterators[i].iter = iter;
                proof {
                    assert(final(self).iterators()[i as int] == iter);
                }
            },
            None => {
                self.type_iterators.push(IteratorEntry { type_id, iter });
                proof {
                    let types = self.iterator_types();
                    assert(final(self).iterators()[types.len() - 1] == iter);
                }
            },
        }
    }

    /// What the iterator for the value's type gives for it; `None` where the type has none.
    pub fn iterate(&self, value: &Value) -> (r: Option<Vec<Value>>)
        ensures
            r is Some <==> self.iterator_types().contains(value@.type_id()),
            self.walked(value@) matches Some(items) ==> r matches Some(given) && views(given@)
                == items,
    {
        proof {
            self.iterator_types().index_of_first_ensures(value@.type_id());
        }
        match self.find_iterator(value.type_id()) {
            Some(i) => {
                assert(self.iterators()[i as int] == self.type_iterators@[i as int].iter);
                Some(self.type_iterators[i].iter.iterate(value))
            },
            None => None,
        }
    }

    /// Registers the pretty name of a type.
    pub fn register_type_name(&mut self, raw: &str, pretty: &str)
        ensures
            final(self).same_scripts(old(self)),
            final(self).same_natives(old(self)),
            final(self).same_iterators(old(self)),
            final(self).same_sinks(old(self)),
            final(self).same_settings(old(self)),
            final(self).pretty_names() == old(self).pretty_names().insert(raw@, pretty@),
    {
        self.type_names.insert(raw.to_string(), pretty.to_string());
    }

    /// Sets the sink that `print` writes to.
    pub fn on_print(&mut self, sink: S)
        ensures
            final(self).same_scripts(old(self)),
            final(self).same_natives(old(self)),
            final(self).same_iterators(old(self)),
            final(self).same_names(old(self)),
            final(self).same_settings(old(self)),
            final(self).print_sink() == sink,
            final(self).debug_sink() == old(self).debug_sink(),
    {
        self.on_print = sink;
    }

    /// Sets the sink that `debug` writes to.
    pub fn on_debug(&mut self, sink: S)
        ensures
            final(self).same_scripts(old(self)),
            final(self).same_natives(old(self)),
            final(self).same_iterators(old(self)),
            final(self).same_names(old(self)),
            final(self).same_settings(old(self)),
            final(self).debug_sink() == sink,
            final(self).print_sink() == old(self).print_sink(),
    {
        self.on_debug = sink;
    }

    /// The name that a type is shown under: its pretty name if one is registered, else the
    /// raw name itself.
    pub fn map_type_name(&self, name: &str) -> (r: String)
        ensures
            r@ == self.pretty(name@),
    {
        match self.type_names.get(name) {
            Some(pretty) => pretty.clone(),
            None => name.to_string(),
        }
    }

    /// What a call of `name` with the given arguments resolves to.
    pub fn resolve(&self, name: &str, args: &[Value], has_default: bool) -> (r: Target)
        requires
            self.well_formed(),
        ensures
            r == self.spec_resolve(name@, type_ids(views(args@)), has_default),
            r matches Target::Script(n) ==> n < self.scripts().len() && has_key(
                self.scripts()[n as int],
                name@,
                args@.len() as int,
            ),
            r matches Target::Native(i) ==> i < self.native_keys().len() && i
                < self.native_functions().len(),
    {
        if let Ok(n) = find_script(&self.script_functions, name, args.len()) {
            return Target::Script(n);
        }
        let types = type_ids_of(args);
        if let Some(i) = self.find_native(name, &types) {
            return Target::Native(i);
        }
        if text_eq(name, KEYWORD_TYPE_OF) && args.len() == 1 {
            Target::TypeOf
        } else if starts_with(name, FUNC_GETTER) {
            Target::UnknownGetter
        } else if starts_with(name, FUNC_SETTER) {
            Target::UnknownSetter
        } else if has_default {
            Target::Default
        } else {
            Target::NotFound
        }
    }

    /// The script function at an index of the table.
    pub fn script_at(&self, n: usize) -> (r: &FnDef)
        requires
            n < self.scripts().len(),
        ensures
            *r == self.scripts()[n as int],
    {
        &self.script_functions[n]
    }

    /// Calls the native function at an index of the table.
    pub(crate) fn call_native(&self, i: usize, args: &mut [Value], pos: Position) -> (r: Result<
        Value,
        EvalAltResult,
    >)
        requires
            i < self.native_keys().len(),
        ensures
            i < self.native_functions().len(),
            self.native_functions()[i as int].model(views(old(args)@), pos) matches Some(
                (o, after),
            ) ==> outcome(r) == o && views(final(args)@) == after,
    {
        self.ext_functions[i].func.call(args, pos)
    }

    /// Calls the native function that is registered under `fn_name` and the types of the
    /// arguments, and gives its value; `None` where no such function is registered. Script
    /// functions and the built-in answers play no part.
    pub fn call_ext_fn_raw(&self, fn_name: &str, args: &mut Vec<Value>, pos: Position) -> (r:
        Result<Option<Value>, EvalAltResult>)
        ensures
            native_index(self.native_keys(), call_key(fn_name@, type_ids(views(old(args)@))))
                is None ==> (r matches Ok(None)) && views(final(args)@) == views(old(args)@),
            native_index(self.native_keys(), call_key(fn_name@, type_ids(views(old(args)@))))
                is Some ==> !(r matches Ok(None)),
            native_index(self.native_keys(), call_key(fn_name@, type_ids(views(old(args)@))))
                matches Some(i) ==> 0 <= i < self.native_functions().len() && (
            self.native_functions()[i].model(views(old(args)@), pos) matches Some((o, after))
                ==> views(final(args)@) == after && match r {
                Ok(Some(value)) => o == Ok::<_, SpecError>(value@),
                Ok(None) => false,
                Err(error) => o == Err::<SpecValue, _>(error@),
            }),
    {
        let types = type_ids_of(args.as_slice());
        match self.find_native(fn_name, &types) {
            Some(i) => match self.call_native(i, args.as_mut_slice(), pos) {
                Ok(value) => Ok(Some(value)),
                Err(error) => Err(error),
            },
            None => Ok(None),
        }
    }

    /// Writes a text to the sink of `print`.
    pub fn print(&self, text: &str) {
        self.on_print.emit(text);
    }

    /// Writes a text to the sink of `debug`.
    pub fn debug(&self, text: &str) {
        self.on_debug.emit(text);
    }

    /// The names that the types of the given values are shown under.
    pub fn pretty_type_names(&self, args: &[Value]) -> (r: Vec<String>)
        ensures
            texts(r@) == self.pretty_types(views(args@)),
    {
        let mut out: Vec<String> = Vec::new();
        let mut i: usize = 0;
        while i < args.len()
            invariant
                i <= args.len(),
                out.len() == i,
                forall|j: int| 0 <= j < i ==> out@[j]@ == self.pretty(args@[j]@.raw_name()),
            decreases args.len() - i,
        {
            let raw = args[i].raw_name();
            out.push(self.map_type_name(raw.as_str()));
            i = i + 1;
        }
        out
    }
}

} // verus!
