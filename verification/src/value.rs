//! The closed set of scalar argument kinds a message can format.

use vstd::prelude::*;

verus! {

/// A runtime argument value.  Immutable once constructed.
#[derive(Debug)]
pub enum Value {
    /// A text value.
    Str(String),
    /// An integer value.
    Number(i64),
}

/// The mathematical content of a [`Value`]: text as a sequence of characters,
/// numbers as unbounded integers.
pub enum ValueV {
    Str(Seq<char>),
    Number(int),
}

impl View for Value {
    type V = ValueV;

    open spec fn view(&self) -> ValueV {
        match self {
            Value::Str(s) => ValueV::Str(s@),
            Value::Number(n) => ValueV::Number(*n as int),
        }
    }
}

impl Clone for Value {
    /// Cloning preserves the mathematical content.
    fn clone(&self) -> (v: Value)
        ensures
            v@ == self@,
    {
        match self {
            Value::Str(s) => Value::Str(s.clone()),
            Value::Number(n) => Value::Number(*n),
        }
    }
}

impl PartialEq for Value {
    /// Two values are equal exactly when their contents are.
    fn eq(&self, other: &Value) -> (r: bool) {
        match (self, other) {
            (Value::Str(a), Value::Str(b)) => *a == *b,
            (Value::Number(a), Value::Number(b)) => *a == *b,
            _ => false,
        }
    }
}

impl vstd::std_specs::cmp::PartialEqSpecImpl for Value {
    open spec fn obeys_eq_spec() -> bool {
        true
    }

    open spec fn eq_spec(&self, other: &Value) -> bool {
        self@ == other@
    }
}

impl Value {
    /// The display form of the value: text verbatim, numbers in decimal.
    pub fn to_display(&self) -> (out: String)
        ensures
            out@ == crate::model::display_of(self@),
    {
        match self {
            Value::Str(s) => s.clone(),
            Value::Number(n) => {
                let mut out = String::new();
                crate::decimal::append_i64(&mut out, *n);
                proof {
                    assert(out@ =~= crate::model::display_of(self@));
                }
                out
            },
        }
    }
}

/// Plain data that can be turned into a [`Value`] argument.
pub trait IntoValue {
    /// The content the conversion yields.
    spec fn value_view(&self) -> ValueV;

    /// Build the [`Value`].
    fn to_value(&self) -> (v: Value)
        ensures
            v@ == self.value_view(),
    ;
}

impl IntoValue for i64 {
    open spec fn value_view(&self) -> ValueV {
        ValueV::Number(*self as int)
    }

    fn to_value(&self) -> (v: Value) {
        Value::Number(*self)
    }
}

impl IntoValue for i32 {
    open spec fn value_view(&self) -> ValueV {
        ValueV::Number(*self as int)
    }

    fn to_value(&self) -> (v: Value) {
        Value::Number(*self as i64)
    }
}

impl<'a> IntoValue for &'a str {
    open spec fn value_view(&self) -> ValueV {
        ValueV::Str((*self)@)
    }

    fn to_value(&self) -> (v: Value) {
        Value::Str((*self).to_owned())
    }
}

impl IntoValue for String {
    open spec fn value_view(&self) -> ValueV {
        ValueV::Str(self@)
    }

    fn to_value(&self) -> (v: Value) {
        Value::Str(self.clone())
    }
}

} // verus!
