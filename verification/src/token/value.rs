//! The values a program computes with.

use crate::text::{int_text, int_to_text, text_views};
use vstd::prelude::*;

verus! {

/// A value of the language.
///
/// A `Float` holds the decimal text of its literal: digits, one point,
/// digits. Nothing in the language computes with it.
#[derive(Debug, PartialEq, Eq, Hash)]
pub enum Value {
    String(String),
    Integer(i128),
    Float(String),
    Boolean(bool),
    Null,
}

/// The mathematical value of a [`Value`].
pub enum ValueView {
    String(Seq<char>),
    Integer(int),
    Float(Seq<char>),
    Boolean(bool),
    Null,
}

impl View for Value {
    type V = ValueView;

    open spec fn view(&self) -> ValueView {
        match self {
            Value::String(s) => ValueView::String(s@),
            Value::Integer(n) => ValueView::Integer(*n as int),
            Value::Float(t) => ValueView::Float(t@),
            Value::Boolean(b) => ValueView::Boolean(*b),
            Value::Null => ValueView::Null,
        }
    }
}

impl ValueView {
    /// How the value is written out.
    pub open spec fn text(self) -> Seq<char> {
        match self {
            ValueView::String(s) => s,
            ValueView::Integer(n) => int_text(n),
            ValueView::Float(t) => t,
            ValueView::Boolean(b) => if b {
                "true"@
            } else {
                "false"@
            },
            ValueView::Null => "Null"@,
        }
    }
}

impl Value {
    /// How the value is written out: a string as it is, an integer in
    /// decimal, a float as its literal was written, a boolean as `true` or
    /// `false`, the null value as `Null`.
    pub fn text(&self) -> (s: String)
        ensures
            s@ == self@.text(),
    {
        match self {
            Value::String(s) => s.clone(),
            Value::Integer(n) => int_to_text(*n),
            Value::Float(t) => t.clone(),
            Value::Boolean(b) => if *b {
                String::from_str("true")
            } else {
                String::from_str("false")
            },
            Value::Null => String::from_str("Null"),
        }
    }
}

/// The view of an optional value.
pub open spec fn opt_value_view(v: Option<Value>) -> Option<ValueView> {
    match v {
        Some(v) => Some(v@),
        None => None,
    }
}

impl Clone for Value {
    fn clone(&self) -> (r: Self)
        ensures
            r == *self,
    {
        match self {
            Value::String(s) => Value::String(s.clone()),
            Value::Integer(n) => Value::Integer(*n),
            Value::Float(t) => Value::Float(t.clone()),
            Value::Boolean(b) => Value::Boolean(*b),
            Value::Null => Value::Null,
        }
    }
}

/// The views of a sequence of values.
pub open spec fn value_views(values: Seq<Value>) -> Seq<ValueView> {
    values.map_values(|v: Value| v@)
}

/// How each of the values `values` is written out.
pub open spec fn value_texts(values: Seq<ValueView>) -> Seq<Seq<char>> {
    values.map_values(|v: ValueView| v.text())
}

/// How each of the values `values` is written out, one line for each.
pub fn lines_of(values: &Vec<Value>) -> (lines: Vec<String>)
    ensures
        text_views(lines@) == value_texts(value_views(values@)),
{
    let mut lines: Vec<String> = Vec::new();
    let mut i: usize = 0;
    while i < values.len()
        invariant
            i <= values.len(),
            lines.len() == i,
            forall|j: int| 0 <= j < i ==> (#[trigger] lines@[j])@ == values@[j]@.text(),
        decreases values.len() - i,
    {
        lines.push(values[i].text());
        i += 1;
    }
    assert(text_views(lines@) =~= value_texts(value_views(values@)));
    lines
}

/// A copy of an optional value.
pub fn clone_opt_value(v: &Option<Value>) -> (r: Option<Value>)
    ensures
        r == *v,
{
    match v {
        Some(v) => Some(v.clone()),
        None => None,
    }
}

impl vstd::std_specs::convert::FromSpecImpl<u8> for Value {
    open spec fn obeys_from_spec() -> bool {
        true
    }

    open spec fn from_spec(value: u8) -> Value {
        Value::Integer(value as i128)
    }
}

impl From<u8> for Value {
    fn from(value: u8) -> (v: Value) {
        Value::Integer(value as i128)
    }
}

impl vstd::std_specs::convert::FromSpecImpl<u16> for Value {
    open spec fn obeys_from_spec() -> bool {
        true
    }

    open spec fn from_spec(value: u16) -> Value {
        Value::Integer(value as i128)
    }
}

impl From<u16> for Value {
    fn from(value: u16) -> (v: Value) {
        Value::Integer(value as i128)
    }
}

impl vstd::std_specs::convert::FromSpecImpl<u32> for Value {
    open spec fn obeys_from_spec() -> bool {
        true
    }

    open spec fn from_spec(value: u32) -> Value {
        Value::Integer(value as i128)
    }
}

impl From<u32> for Value {
    fn from(value: u32) -> (v: Value) {
        Value::Integer(value as i128)
    }
}

impl vstd::std_specs::convert::FromSpecImpl<u64> for Value {
    open spec fn obeys_from_spec() -> bool {
        true
    }

    open spec fn from_spec(value: u64) -> Value {
        Value::Integer(value as i128)
    }
}

impl From<u64> for Value {
    fn from(value: u64) -> (v: Value) {
        Value::Integer(value as i128)
    }
}

impl vstd::std_specs::convert::FromSpecImpl<i8> for Value {
    open spec fn obeys_from_spec() -> bool {
        true
    }

    open spec fn from_spec(value: i8) -> Value {
        Value::Integer(value as i128)
    }
}

impl From<i8> for Value {
    fn from(value: i8) -> (v: Value) {
        Value::Integer(value as i128)
    }
}

impl vstd::std_specs::convert::FromSpecImpl<i16> for Value {
    open spec fn obeys_from_spec() -> bool {
        true
    }

    open spec fn from_spec(value: i16) -> Value {
        Value::Integer(value as i128)
    }
}

impl From<i16> for Value {
    fn from(value: i16) -> (v: Value) {
        Value::Integer(value as i128)
    }
}

impl vstd::std_specs::convert::FromSpecImpl<i32> for Value {
    open spec fn obeys_from_spec() -> bool {
        true
    }

    open spec fn from_spec(value: i32) -> Value {
        Value::Integer(value as i128)
    }
}

impl From<i32> for Value {
    fn from(value: i32) -> (v: Value) {
        Value::Integer(value as i128)
    }
}

impl vstd::std_specs::convert::FromSpecImpl<i64> for Value {
    open spec fn obeys_from_spec() -> bool {
        true
    }

    open spec fn from_spec(value: i64) -> Value {
        Value::Integer(value as i128)
    }
}

impl From<i64> for Value {
    fn from(value: i64) -> (v: Value) {
        Value::Integer(value as i128)
    }
}

impl vstd::std_specs::convert::FromSpecImpl<i128> for Value {
    open spec fn obeys_from_spec() -> bool {
        true
    }

    open spec fn from_spec(value: i128) -> Value {
        Value::Integer(value)
    }
}

impl From<i128> for Value {
    fn from(value: i128) -> (v: Value) {
        Value::Integer(value)
    }
}

impl vstd::std_specs::convert::FromSpecImpl<String> for Value {
    open spec fn obeys_from_spec() -> bool {
        true
    }

    open spec fn from_spec(value: String) -> Value {
        Value::String(value)
    }
}

impl From<String> for Value {
    fn from(value: String) -> (v: Value) {
        Value::String(value)
    }
}

impl vstd::std_specs::convert::FromSpecImpl<bool> for Value {
    open spec fn obeys_from_spec() -> bool {
        true
    }

    open spec fn from_spec(value: bool) -> Value {
        Value::Boolean(value)
    }
}

impl From<bool> for Value {
    fn from(value: bool) -> (v: Value) {
        Value::Boolean(value)
    }
}

} // verus!
