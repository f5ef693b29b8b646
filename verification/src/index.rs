//! Indexing: reading and replacing one element of an array or one character of a string,
//! in a value at hand or in a variable of the scope.

use crate::ast::Position;
use crate::engine::{Engine, NativeFunction, OutputSink, TypeIterator};
use crate::error::{outcome, EvalAltResult, SpecError};
use crate::scope::{lookup, with_value, Scope, SpecBinding, VariableType};
use crate::text::push_char;
use crate::value::{views, SpecValue, Value, INT};
use vstd::pervasive::unreached;
use vstd::prelude::*;
use vstd::string::*;

verus! {

broadcast use crate::value::group_views;

/// What was indexed: an array or a string that a variable holds, or the value of some
/// other expression.
#[derive(Clone, Copy, Debug, PartialEq, Eq, Hash, Structural)]
pub enum IndexSourceType {
    Array,
    String,
    Expression,
}

/// The element of an array or the character of a string at `index`; `None` where the
/// value is neither or has no such index.
pub open spec fn element_at(container: SpecValue, index: int) -> Option<SpecValue> {
    match container {
        SpecValue::Array(items) => if 0 <= index < items.len() {
            Some(items[index])
        } else {
            None
        },
        SpecValue::Str(s) => if 0 <= index < s.len() {
            Some(SpecValue::Char(s[index]))
        } else {
            None
        },
        _ => None,
    }
}

/// The kind of container that a value is, as an index source.
pub open spec fn source_of(container: SpecValue) -> IndexSourceType {
    match container {
        SpecValue::Array(_) => IndexSourceType::Array,
        SpecValue::Str(_) => IndexSourceType::String,
        _ => IndexSourceType::Expression,
    }
}

/// The container with `new_val` at `index`. A string takes only a character there.
pub open spec fn updated(
    container: SpecValue,
    index: int,
    new_val: SpecValue,
    pos: Position,
) -> Result<SpecValue, SpecError>
    recommends
        element_at(container, index) is Some,
{
    match container {
        SpecValue::Array(items) => Ok(SpecValue::Array(items.update(index, new_val))),
        SpecValue::Str(s) => match new_val {
            SpecValue::Char(c) => Ok(SpecValue::Str(s.update(index, c))),
            _ => Err(SpecError::CharMismatch(pos)),
        },
        _ => Ok(container),
    }
}

/// The error for writing an element back into a container that no longer has it: the
/// container is of another kind now, or too short.
pub open spec fn lost_element(
    container: SpecValue,
    pretty: Seq<char>,
    index: int,
    pos: Position,
) -> SpecError {
    match container {
        SpecValue::Array(items) => SpecError::ArrayBounds(items.len(), index, pos),
        SpecValue::Str(s) => SpecError::StringBounds(s.len(), index, pos),
        _ => SpecError::IndexingType(pretty, pos),
    }
}

/// What writing an element back into the variable at `src_idx` ends in, and the scope it
/// leaves: the element is replaced where the variable still holds a container of the kind
/// `source` with the index; else nothing is written and the error says what is there now.
pub open spec fn written_back(
    source: IndexSourceType,
    scope: Seq<SpecBinding>,
    pretty: Seq<char>,
    src_idx: int,
    index: int,
    new_val: SpecValue,
    pos: Position,
) -> (Result<SpecValue, SpecError>, Seq<SpecBinding>) {
    let container = scope[src_idx].value;
    if source_of(container) == source && element_at(container, index) is Some {
        match updated(container, index, new_val, pos) {
            Ok(value) => (Ok(SpecValue::Unit), with_value(scope, src_idx, value)),
            Err(error) => (Err(error), scope),
        }
    } else if source_of(container) == source {
        (Err(lost_element(container, pretty, index, pos)), scope)
    } else {
        (Err(SpecError::IndexingType(pretty, pos)), scope)
    }
}

/// What looking a variable up gives: the index, the kind and the value of its newest
/// binding, or the error that names it.
pub open spec fn found(scope: Seq<SpecBinding>, id: Seq<char>, begin: Position) -> Result<
    (int, VariableType, SpecValue),
    SpecError,
> {
    match lookup(scope, id) {
        Some(index) => Ok((index, scope[index].kind, scope[index].value)),
        None => Err(SpecError::VariableNotFound(id, begin)),
    }
}

impl<F: NativeFunction, I: TypeIterator, S: OutputSink> Engine<F, I, S> {
    /// What indexing a value gives: the element and the kind of container, or the error
    /// for an index out of bounds or for a value that has no elements.
    pub open spec fn indexed(
        &self,
        container: SpecValue,
        index: int,
        val_pos: Position,
        idx_pos: Position,
    ) -> Result<(SpecValue, IndexSourceType), SpecError> {
        match container {
            SpecValue::Array(items) => if 0 <= index < items.len() {
                Ok((items[index], IndexSourceType::Array))
            } else {
                Err(SpecError::ArrayBounds(items.len(), index, val_pos))
            },
            SpecValue::Str(s) => if 0 <= index < s.len() {
                Ok((SpecValue::Char(s[index]), IndexSourceType::String))
            } else {
                Err(SpecError::StringBounds(s.len(), index, val_pos))
            },
            _ => Err(SpecError::IndexingType(self.pretty(container.raw_name()), idx_pos)),
        }
    }

    /// Looks a variable up in the scope: the index, the kind and a copy of the value of
    /// its newest binding.
    pub fn search_scope(scope: &Scope, id: &str, begin: Position) -> (r: Result<
        (usize, VariableType, Value),
        EvalAltResult,
    >)
        ensures
            match r {
                Ok((index, kind, value)) => found(scope@, id@, begin) == Ok::<_, SpecError>(
                    (index as int, kind, value@),
                ) && index < scope@.len() && scope@[index as int].name == id@,
                Err(error) => found(scope@, id@, begin) == Err::<
                    (int, VariableType, SpecValue),
                    _,
                >(error@),
            },
    {
        match scope.get(id) {
            Some((index, _, kind, value)) => Ok((index, kind, value)),
            None => Err(EvalAltResult::ErrorVariableNotFound(id.to_string(), begin)),
        }
    }

    /// The element of an array, or the character of a string, at an index.
    pub fn get_indexed_value(
        &self,
        val: &Value,
        idx: INT,
        val_pos: Position,
        idx_pos: Position,
    ) -> (r: Result<(Value, IndexSourceType), EvalAltResult>)
        ensures
            r matches Ok((value, source)) ==> 0 <= idx <= usize::MAX && source_of(val@) == source
                && element_at(val@, idx as int) == Some(value@),
            match r {
                Ok((value, source)) => self.indexed(val@, idx as int, val_pos, idx_pos) == Ok::<
                    _,
                    SpecError,
                >((value@, source)),
                Err(error) => self.indexed(val@, idx as int, val_pos, idx_pos) == Err::<
                    (SpecValue, IndexSourceType),
                    _,
                >(error@),
            },
    {
        match val {
            Value::Array(items) => {
                assert(val@ == SpecValue::Array(views(items@)));
                assert(views(items@).len() == items@.len());
                if idx >= 0 && (idx as u64) < (items.len() as u64) {
                    assert(views(items@)[idx as int] == items@[idx as int]@);
                    Ok((items[idx as usize].clone(), IndexSourceType::Array))
                } else {
                    Err(EvalAltResult::ErrorArrayBounds(items.len(), idx, val_pos))
                }
            },
            Value::Str(s) => {
                let count = s.as_str().unicode_len();
                if idx >= 0 && (idx as u64) < (count as u64) {
                    let ch = s.as_str().get_char(idx as usize);
                    Ok((Value::Char(ch), IndexSourceType::String))
                } else {
                    Err(EvalAltResult::ErrorStringBounds(count, idx, val_pos))
                }
            },
            _ => {
                let raw = val.raw_name();
                Err(EvalAltResult::ErrorIndexingType(self.map_type_name(raw.as_str()), idx_pos))
            },
        }
    }

    /// Replaces the character at a position of a string.
    pub fn str_replace_char(s: &mut String, idx: usize, new_ch: char)
        requires
            idx < old(s)@.len(),
        ensures
            final(s)@ == old(s)@.update(idx as int, new_ch),
    {
        let count = s.as_str().unicode_len();
        let ch = s.as_str().get_char(idx);
        if ch != new_ch {
            let mut out = s.as_str().substring_char(0, idx).to_string();
            push_char(&mut out, new_ch);
            out.append(s.as_str().substring_char(idx + 1, count));
            assert(out@ =~= s@.update(idx as int, new_ch));
            *s = out;
        } else {
            assert(s@ =~= s@.update(idx as int, new_ch));
        }
    }

    /// Replaces one element of a container at hand and gives the container back.
    pub fn update_indexed_value(target: Value, idx: usize, new_val: Value, pos: Position) -> (r:
        Result<Value, EvalAltResult>)
        requires
            element_at(target@, idx as int) is Some,
        ensures
            outcome(r) == updated(target@, idx as int, new_val@, pos),
    {
        match target {
            Value::Array(items) => {
                let mut items = items;
                let ghost before = items@;
                assert(views(before).len() == before.len());
                items[idx] = new_val;
                assert(views(items@) =~= views(before).update(idx as int, new_val@));
                Ok(Value::Array(items))
            },
            Value::Str(s) => {
                let mut s = s;
                match new_val {
                    Value::Char(ch) => {
                        Self::str_replace_char(&mut s, idx, ch);
                        Ok(Value::Str(s))
                    },
                    _ => Err(EvalAltResult::ErrorCharMismatch(pos)),
                }
            },
            other => Ok(other),
        }
    }

    /// Whether the variable at `src_idx` holds a container of the kind `src_type` that has
    /// the index `idx`.
    pub fn holds_element(
        src_type: IndexSourceType,
        scope: &Scope,
        src_idx: usize,
        idx: usize,
    ) -> (r: bool)
        requires
            src_idx < scope@.len(),
        ensures
            r == (source_of(scope@[src_idx as int].value) == src_type && element_at(
                scope@[src_idx as int].value,
                idx as int,
            ) is Some),
    {
        match scope.value_at(src_idx) {
            Value::Array(items) => {
                assert(views(items@).len() == items@.len());
                src_type == IndexSourceType::Array && idx < items.len()
            },
            Value::Str(s) => src_type == IndexSourceType::String && idx < s.as_str().unicode_len(),
            _ => false,
        }
    }

    /// Replaces, in the scope, one element of the container that the variable at `src_idx` holds.
    pub fn update_indexed_var_in_scope(
        src_type: IndexSourceType,
        scope: &mut Scope,
        id: &str,
        src_idx: usize,
        idx: usize,
        new_val: Value,
        val_pos: Position,
    ) -> (r: Result<Value, EvalAltResult>)
        requires
            src_idx < old(scope)@.len(),
            old(scope)@[src_idx as int].name == id@,
            source_of(old(scope)@[src_idx as int].value) == src_type,
            element_at(old(scope)@[src_idx as int].value, idx as int) is Some,
        ensures
            crate::scope::extends(old(scope)@, final(scope)@),
            final(scope)@.len() == old(scope)@.len(),
            match updated(old(scope)@[src_idx as int].value, idx as int, new_val@, val_pos) {
                Ok(value) => outcome(r) == Ok::<_, SpecError>(SpecValue::Unit) && final(scope)@
                    == with_value(old(scope)@, src_idx as int, value),
                Err(error) => outcome(r) == Err::<SpecValue, _>(error) && final(scope)@ == old(
                    scope,
                )@,
            },
    {
        match src_type {
            IndexSourceType::Array => {
                let arr = scope.get_array_mut(id, src_idx);
                let ghost before = arr@;
                assert(views(before).len() == before.len());
                arr[idx] = new_val;
                assert(views(arr@) =~= views(before).update(idx as int, new_val@));
                Ok(Value::Unit)
            },
            IndexSourceType::String => match new_val {
                Value::Char(ch) => {
                    let s = scope.get_string_mut(id, src_idx);
                    Self::str_replace_char(s, idx, ch);
                    Ok(Value::Unit)
                },
                _ => Err(EvalAltResult::ErrorCharMismatch(val_pos)),
            },
            IndexSourceType::Expression => unreached(),
        }
    }

    /// Writes an element back into the variable that it was read from, after code ran that
    /// may have changed the variable. Where the variable still holds a container of the
    /// recorded kind with that index, the element is replaced; where it does not, nothing
    /// is written and the error says what the variable holds now.
    pub fn write_back_element(
        &self,
        src_type: IndexSourceType,
        scope: &mut Scope,
        id: &str,
        src_idx: usize,
        idx: usize,
        new_val: Value,
        val_pos: Position,
    ) -> (r: Result<Value, EvalAltResult>)
        requires
            src_idx < old(scope)@.len(),
            old(scope)@[src_idx as int].name == id@,
            idx <= i64::MAX,
        ensures
            crate::scope::extends(old(scope)@, final(scope)@),
            final(scope)@.len() == old(scope)@.len(),
            (outcome(r), final(scope)@) == written_back(
                src_type,
                old(scope)@,
                self.pretty(old(scope)@[src_idx as int].value.raw_name()),
                src_idx as int,
                idx as int,
                new_val@,
                val_pos,
            ),
    {
        if Self::holds_element(src_type, scope, src_idx, idx) {
            Self::update_indexed_var_in_scope(src_type, scope, id, src_idx, idx, new_val, val_pos)
        } else {
            let held = scope.value_at(src_idx);
            match held {
                Value::Array(items) => {
                    if src_type == IndexSourceType::Array {
                        assert(views(items@).len() == items@.len());
                        Err(EvalAltResult::ErrorArrayBounds(items.len(), idx as INT, val_pos))
                    } else {
                        let raw = held.raw_name();
                        Err(
                            EvalAltResult::ErrorIndexingType(
                                self.map_type_name(raw.as_str()),
                                val_pos,
                            ),
                        )
                    }
                },
                Value::Str(s) => {
                    if src_type == IndexSourceType::String {
                        Err(
                            EvalAltResult::ErrorStringBounds(
                                s.as_str().unicode_len(),
                                idx as INT,
                                val_pos,
                            ),
                        )
                    } else {
                        let raw = held.raw_name();
                        Err(
                            EvalAltResult::ErrorIndexingType(
                                self.map_type_name(raw.as_str()),
                                val_pos,
                            ),
                        )
                    }
                },
                _ => {
                    let raw = held.raw_name();
                    Err(EvalAltResult::ErrorIndexingType(self.map_type_name(raw.as_str()), val_pos))
                },
            }
        }
    }
}

} // verus!
