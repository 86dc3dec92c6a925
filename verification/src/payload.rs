//! The payload of a command: a tree of the kinds of value that scripts send.
use vstd::prelude::*;
use crate::text::same_text;

verus! {

/// A number of a payload. Only whole numbers are read here; any other
/// number is kept as the 64 bits of its binary form, to be handed on as it
/// came.
#[derive(Clone, Copy, Debug, PartialEq, Eq, Structural)]
pub enum Number {
    /// A whole number that is not negative.
    PosInt(u64),
    /// A negative whole number.
    NegInt(i64),
    /// A number that is not whole, by its bits.
    Fractional(u64),
}

/// A payload: nothing, a truth value, a number, a text, a list of payloads
/// or an object, which is a list of named payloads.
#[derive(Debug, PartialEq, Eq)]
pub enum Value {
    Null,
    Bool(bool),
    Number(Number),
    Text(String),
    List(Vec<Value>),
    Object(Vec<(String, Value)>),
}

/// The first of `entries` from index `from` on that is called `key`.
pub open spec fn lookup(entries: Seq<(String, Value)>, key: Seq<char>, from: int) -> Option<Value>
    decreases entries.len() - from,
{
    if from < 0 || from >= entries.len() {
        None
    } else if entries[from].0@ == key {
        Some(entries[from].1)
    } else {
        lookup(entries, key, from + 1)
    }
}

impl Number {
    /// The number as a signed 64-bit integer, where it is one.
    pub open spec fn integer(self) -> Option<i64> {
        match self {
            Number::PosInt(n) => if n <= i64::MAX as u64 {
                Some(n as i64)
            } else {
                None
            },
            Number::NegInt(i) => Some(i),
            Number::Fractional(_) => None,
        }
    }

    /// The number as a signed 64-bit integer, where it is one.
    pub fn as_i64(&self) -> (r: Option<i64>)
        ensures
            r == self.integer(),
    {
        match self {
            Number::PosInt(n) => if *n <= i64::MAX as u64 {
                Some(*n as i64)
            } else {
                None
            },
            Number::NegInt(i) => Some(*i),
            Number::Fractional(_) => None,
        }
    }
}

impl Value {
    /// The member called `key`, if this is an object that has one. Of
    /// several members of that name it is the first.
    pub open spec fn member(self, key: Seq<char>) -> Option<Value> {
        match self {
            Value::Object(entries) => lookup(entries@, key, 0),
            _ => None,
        }
    }

    /// The text, if this is a text.
    pub open spec fn text(self) -> Option<Seq<char>> {
        match self {
            Value::Text(s) => Some(s@),
            _ => None,
        }
    }

    /// The integer, if this is a number that is one.
    pub open spec fn integer(self) -> Option<i64> {
        match self {
            Value::Number(n) => n.integer(),
            _ => None,
        }
    }

    /// The truth value, if this is one.
    pub open spec fn truth(self) -> Option<bool> {
        match self {
            Value::Bool(b) => Some(b),
            _ => None,
        }
    }

    /// The items, if this is a list.
    pub open spec fn items(self) -> Option<Seq<Value>> {
        match self {
            Value::List(items) => Some(items@),
            _ => None,
        }
    }

    /// The member called `key`, if this is an object that has one.
    pub fn get(&self, key: &str) -> (r: Option<&Value>)
        ensures
            r matches Some(v) ==> self.member(key@) == Some(*v),
            r is None ==> self.member(key@) is None,
    {
        match self {
            Value::Object(entries) => {
                let n = entries.len();
                let mut i: usize = 0;
                while i < n
                    invariant
                        i <= n,
                        n == entries@.len(),
                        self.member(key@) == lookup(entries@, key@, 0),
                        lookup(entries@, key@, 0) == lookup(entries@, key@, i as int),
                    decreases n - i,
                {
                    if same_text(entries[i].0.as_str(), key) {
                        return Some(&entries[i].1);
                    }
                    i += 1;
                }
                None
            },
            _ => None,
        }
    }

    /// The text, if this is a text.
    pub fn as_str(&self) -> (r: Option<&str>)
        ensures
            r matches Some(s) ==> self.text() == Some(s@),
            r is None ==> self.text() is None,
    {
        match self {
            Value::Text(s) => Some(s.as_str()),
            _ => None,
        }
    }

    /// The integer, if this is a number that is one.
    pub fn as_i64(&self) -> (r: Option<i64>)
        ensures
            r == self.integer(),
    {
        match self {
            Value::Number(n) => n.as_i64(),
            _ => None,
        }
    }

    /// The truth value, if this is one.
    pub fn as_bool(&self) -> (r: Option<bool>)
        ensures
            r == self.truth(),
    {
        match self {
            Value::Bool(b) => Some(*b),
            _ => None,
        }
    }

    /// The items, if this is a list.
    pub fn as_array(&self) -> (r: Option<&Vec<Value>>)
        ensures
            r matches Some(items) ==> self.items() == Some(items@),
            r is None ==> self.items() is None,
    {
        match self {
            Value::List(items) => Some(items),
            _ => None,
        }
    }
}

} // verus!
