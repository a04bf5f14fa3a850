//! The dynamic type of a value.

use super::value::{Value, ValueView};
use vstd::prelude::*;

verus! {

/// The dynamic type of a [`Value`].
#[derive(Debug, Clone, Copy, PartialEq, Eq, Structural)]
pub enum Type {
    String,
    Integer,
    Float,
    Boolean,
    Null,
}

impl ValueView {
    /// The dynamic type of the value.
    pub open spec fn ty(self) -> Type {
        match self {
            ValueView::String(_) => Type::String,
            ValueView::Integer(_) => Type::Integer,
            ValueView::Float(_) => Type::Float,
            ValueView::Boolean(_) => Type::Boolean,
            ValueView::Null => Type::Null,
        }
    }
}

impl Value {
    /// The dynamic type of the value.
    pub fn ty(&self) -> (t: Type)
        ensures
            t == self@.ty(),
    {
        match self {
            Value::String(_) => Type::String,
            Value::Integer(_) => Type::Integer,
            Value::Float(_) => Type::Float,
            Value::Boolean(_) => Type::Boolean,
            Value::Null => Type::Null,
        }
    }
}

impl vstd::std_specs::convert::FromSpecImpl<Value> for Type {
    open spec fn obeys_from_spec() -> bool {
        true
    }

    open spec fn from_spec(value: Value) -> Type {
        value@.ty()
    }
}

impl From<Value> for Type {
    fn from(value: Value) -> (t: Type) {
        value.ty()
    }
}

impl Type {
    /// The name of the type.
    pub open spec fn name(self) -> Seq<char> {
        match self {
            Type::String => "String"@,
            Type::Integer => "Integer"@,
            Type::Float => "Float"@,
            Type::Boolean => "Boolean"@,
            Type::Null => "Null"@,
        }
    }

    /// The name of the type.
    pub fn text(&self) -> (s: String)
        ensures
            s@ == self.name(),
    {
        match self {
            Type::String => String::from_str("String"),
            Type::Integer => String::from_str("Integer"),
            Type::Float => String::from_str("Float"),
            Type::Boolean => String::from_str("Boolean"),
            Type::Null => String::from_str("Null"),
        }
    }
}

} // verus!
