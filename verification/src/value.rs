//! Runtime values: what a configuration holds, and how a literal becomes one.

use crate::literal::{Literal, LiteralView, NumberLiteral};
use vstd::prelude::*;

verus! {

/// A runtime number.
///
/// A floating-point number is held by the bit pattern of its 64-bit encoding.
#[derive(Clone, Copy, Debug, PartialEq, Eq, Structural)]
pub enum Num {
    U64(u64),
    I64(i64),
    F64 { bits: u64 },
}

/// A runtime value.
#[derive(Debug, PartialEq, Eq)]
pub enum Value {
    /// The absence of a value.
    Empty,
    Bool(bool),
    Num(Num),
    String(String),
    Array(Vec<Value>),
    /// A keyed record, its entries in the order in which they were given.
    Dict(Vec<(String, Value)>),
}

/// The mathematical value of a [`Value`].
pub enum ValueView {
    Empty,
    Bool(bool),
    Num(Num),
    String(Seq<char>),
    Array(Seq<ValueView>),
    Dict(Seq<(Seq<char>, ValueView)>),
}

/// The view of a runtime value.
pub open spec fn value_view(value: Value) -> ValueView
    decreases value,
{
    match value {
        Value::Empty => ValueView::Empty,
        Value::Bool(b) => ValueView::Bool(b),
        Value::Num(n) => ValueView::Num(n),
        Value::String(s) => ValueView::String(s@),
        Value::Array(items) => ValueView::Array(
            Seq::new(
                items.len() as nat,
                |i: int|
                    if 0 <= i < items.len() {
                        value_view(items[i])
                    } else {
                        ValueView::Empty
                    },
            ),
        ),
        Value::Dict(entries) => ValueView::Dict(
            Seq::new(
                entries.len() as nat,
                |i: int|
                    if 0 <= i < entries.len() {
                        (entries[i].0@, value_view(entries[i].1))
                    } else {
                        (Seq::empty(), ValueView::Empty)
                    },
            ),
        ),
    }
}

impl View for Value {
    type V = ValueView;

    open spec fn view(&self) -> ValueView {
        value_view(*self)
    }
}

/// The runtime number of a number literal: the same number in the same form.
pub open spec fn number_value(number: NumberLiteral) -> Num {
    match number {
        NumberLiteral::Unsigned(n) => Num::U64(n),
        NumberLiteral::Signed(n) => Num::I64(n),
        NumberLiteral::Float { bits } => Num::F64 { bits },
    }
}

/// The runtime value of a literal: null is the empty value, a list becomes
/// an array and a record a dictionary, element by element and in order, and
/// everything else keeps its kind and its content.
pub open spec fn literal_value(literal: LiteralView) -> ValueView
    decreases literal,
{
    match literal {
        LiteralView::Null => ValueView::Empty,
        LiteralView::Bool(b) => ValueView::Bool(b),
        LiteralView::Number(n) => ValueView::Num(number_value(n)),
        LiteralView::String(s) => ValueView::String(s),
        LiteralView::Array(items) => ValueView::Array(
            Seq::new(
                items.len(),
                |i: int|
                    if 0 <= i < items.len() {
                        literal_value(items[i])
                    } else {
                        ValueView::Empty
                    },
            ),
        ),
        LiteralView::Object(fields) => ValueView::Dict(
            Seq::new(
                fields.len(),
                |i: int|
                    if 0 <= i < fields.len() {
                        (fields[i].0, literal_value(fields[i].1))
                    } else {
                        (Seq::empty(), ValueView::Empty)
                    },
            ),
        ),
    }
}


/// Converts a literal into the runtime value that stands for it.
pub fn json_value_to_figment_value(json_value: &Literal) -> (value: Value)
    ensures
        value@ == literal_value(json_value@),
    decreases json_value,
{
    match json_value {
        Literal::Null => Value::Empty,
        Literal::Bool(value) => Value::Bool(*value),
        Literal::Number(number) => Value::Num(
            match number {
                NumberLiteral::Unsigned(n) => Num::U64(*n),
                NumberLiteral::Signed(n) => Num::I64(*n),
                NumberLiteral::Float { bits } => Num::F64 { bits: *bits },
            },
        ),
        Literal::String(text) => Value::String(text.clone()),
        Literal::Array(items) => {
            let mut array: Vec<Value> = Vec::new();
            let mut i: usize = 0;
            while i < items.len()
                invariant
                    json_value is Array,
                    json_value->Array_0 == *items,
                    i <= items.len(),
                    array.len() == i,
                    forall|j: int| 0 <= j < i ==> array[j]@ == literal_value(items[j]@),
                decreases items.len() - i,
            {
                array.push(json_value_to_figment_value(&items[i]));
                i += 1;
            }
            let value = Value::Array(array);
            assert(value@->Array_0 =~= literal_value(json_value@)->Array_0);
            value
        },
        Literal::Object(fields) => {
            let mut dict: Vec<(String, Value)> = Vec::new();
            let mut i: usize = 0;
            while i < fields.len()
                invariant
                    json_value is Object,
                    json_value->Object_0 == *fields,
                    i <= fields.len(),
                    dict.len() == i,
                    forall|j: int|
                        0 <= j < i ==> dict[j].0@ == fields[j].0@ && dict[j].1@ == literal_value(
                            fields[j].1@,
                        ),
                decreases fields.len() - i,
            {
                dict.push((fields[i].0.clone(), json_value_to_figment_value(&fields[i].1)));
                i += 1;
            }
            let value = Value::Dict(dict);
            assert(value@->Dict_0 =~= literal_value(json_value@)->Dict_0);
            value
        },
    }
}

} // verus!
