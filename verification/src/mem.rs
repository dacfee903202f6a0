//! The runtime value model and the binding table of one evaluation run.
//!
//! A `Value` is immutable once produced; reassignment replaces the binding,
//! not the value. The `SymbolTable` is one flat namespace from names to
//! values, modelled in contracts as a `Map<Seq<char>, AbsValue>`.
//!
//! The value model carries no floating-point variant: float syntax is
//! recognized by the parser, but the verified evaluator gives it no
//! arithmetic semantics (every use reports `NotImplemented`).
use vstd::prelude::*;

use crate::errors::ValueType;
use crate::text::str_eq;

verus! {

/// Reserved for a stack-based runtime; carries no semantics today.
pub struct Stack(Vec<u8>);

/// Reserved for block scoping; carries no semantics today (the binding
/// table is one flat namespace).
pub struct Scope {
    pub symbols: Vec<String>,
}

/// A runtime value of the dynamically typed language.
#[derive(Debug, PartialEq)]
pub enum Value {
    Void,
    Boolean(bool),
    Integer(i64),
    Char(char),
    String(String),
}

/// Mathematical mirror of `Value`: text becomes a character sequence.
pub enum AbsValue {
    Void,
    Bool(bool),
    Int(i64),
    Char(char),
    Str(Seq<char>),
}

impl View for Value {
    type V = AbsValue;

    open spec fn view(&self) -> AbsValue {
        match *self {
            Value::Void => AbsValue::Void,
            Value::Boolean(b) => AbsValue::Bool(b),
            Value::Integer(i) => AbsValue::Int(i),
            Value::Char(c) => AbsValue::Char(c),
            Value::String(ref s) => AbsValue::Str(s@),
        }
    }
}

/// The dynamic type of a ghost value.
pub open spec fn abs_value_type(v: AbsValue) -> ValueType {
    match v {
        AbsValue::Void => ValueType::Void,
        AbsValue::Bool(_) => ValueType::Boolean,
        AbsValue::Int(_) => ValueType::Integer,
        AbsValue::Char(_) => ValueType::Char,
        AbsValue::Str(_) => ValueType::Text,
    }
}

impl Value {
    /// The dynamic type of this value.
    pub fn value_type(&self) -> (t: ValueType)
        ensures
            t == abs_value_type(self@),
    {
        match *self {
            Value::Void => ValueType::Void,
            Value::Boolean(_) => ValueType::Boolean,
            Value::Integer(_) => ValueType::Integer,
            Value::Char(_) => ValueType::Char,
            Value::String(_) => ValueType::Text,
        }
    }

    /// An owned copy of this value; values are copied on every use.
    pub fn duplicate(&self) -> (r: Value)
        ensures
            r@ == self@,
    {
        match *self {
            Value::Void => Value::Void,
            Value::Boolean(b) => Value::Boolean(b),
            Value::Integer(i) => Value::Integer(i),
            Value::Char(c) => Value::Char(c),
            Value::String(ref s) => Value::String(s.clone()),
        }
    }
}

/// One flat, mutable binding table from names to values, owned exclusively
/// by one evaluation run. Declaring a name inserts or replaces its binding.
pub struct SymbolTable {
    entries: Vec<(String, Value)>,
}

/// The map that a sequence of bindings denotes; a later binding of the same
/// name wins.
pub open spec fn entries_map(s: Seq<(String, Value)>) -> Map<Seq<char>, AbsValue>
    decreases s.len(),
{
    if s.len() == 0 {
        Map::empty()
    } else {
        entries_map(s.drop_last()).insert(s.last().0@, s.last().1@)
    }
}

/// A binding of `name` at position `i`, with no later binding of `name`,
/// decides both membership and the value of `name` in the denoted map.
proof fn lemma_entries_map_at(s: Seq<(String, Value)>, name: Seq<char>, i: int)
    requires
        0 <= i < s.len(),
        s[i].0@ == name,
        forall|j: int| i < j < s.len() ==> s[j].0@ != name,
    ensures
        entries_map(s).contains_key(name),
        entries_map(s)[name] == s[i].1@,
    decreases s.len(),
{
    if i == s.len() - 1 {
        assert(s.last() == s[i]);
    } else {
        assert(s.last().0@ != name);
        assert(s.drop_last()[i] == s[i]);
        lemma_entries_map_at(s.drop_last(), name, i);
    }
}

/// A name bound nowhere is absent from the denoted map.
proof fn lemma_entries_map_absent(s: Seq<(String, Value)>, name: Seq<char>)
    requires
        forall|j: int| 0 <= j < s.len() ==> s[j].0@ != name,
    ensures
        !entries_map(s).contains_key(name),
    decreases s.len(),
{
    if s.len() > 0 {
        assert(s.last().0@ != name);
        lemma_entries_map_absent(s.drop_last(), name);
    }
}

impl SymbolTable {
    /// The binding table as a map from names to ghost values.
    pub closed spec fn view(&self) -> Map<Seq<char>, AbsValue> {
        entries_map(self.entries@)
    }

    /// An empty table: no name is bound.
    pub fn new() -> (t: SymbolTable)
        ensures
            t@ == Map::<Seq<char>, AbsValue>::empty(),
    {
        SymbolTable { entries: Vec::new() }
    }

    /// Binds `name` to `value`, inserting or replacing.
    pub fn create_var(&mut self, name: &str, value: Value)
        ensures
            final(self)@ == old(self)@.insert(name@, value@),
    {
        let ghost before = self.entries@;
        let ghost v = value@;
        self.entries.push((name.to_owned(), value));
        proof {
            assert(self.entries@.drop_last() =~= before);
            assert(self.entries@.last().0@ == name@);
            assert(self.entries@.last().1@ == v);
        }
    }

    /// The value bound to `name`, if any.
    pub fn get_value(&self, name: &str) -> (r: Option<&Value>)
        ensures
            match r {
                Option::Some(v) => self@.contains_key(name@) && v@ == self@[name@],
                Option::None => !self@.contains_key(name@),
            },
    {
        let n = self.entries.len();
        let mut i = n;
        while i > 0
            invariant
                i <= n == self.entries@.len(),
                forall|j: int| i <= j < n ==> self.entries@[j].0@ != name@,
        decreases i,
        {
            i = i - 1;
            let e = &self.entries[i];
            if str_eq(e.0.as_str(), name) {
                proof {
                    lemma_entries_map_at(self.entries@, name@, i as int);
                }
                return Some(&self.entries[i].1);
            }
        }
        proof {
            lemma_entries_map_absent(self.entries@, name@);
        }
        None
    }

    /// Replaces (or creates) the binding of `name`; same effect as
    /// `create_var`.
    pub fn set_value(&mut self, name: &str, value: Value)
        ensures
            final(self)@ == old(self)@.insert(name@, value@),
    {
        self.create_var(name, value);
    }
}

} // verus!
