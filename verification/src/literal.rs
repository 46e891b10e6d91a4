//! Literal values: the constants that a schema can name.

use vstd::prelude::*;

verus! {

/// A number literal, in the first of three forms that holds it.
///
/// A floating-point number is held by the bit pattern of its 64-bit encoding.
#[derive(Clone, Copy, Debug, PartialEq, Eq, Structural)]
pub enum NumberLiteral {
    Unsigned(u64),
    Signed(i64),
    Float { bits: u64 },
}

/// The literal of a number that is given by the forms that can hold it: the
/// unsigned form where there is one, else the signed one, else the
/// floating-point one.
pub open spec fn number_of_forms(unsigned: Option<u64>, signed: Option<i64>, float: Option<u64>)
    -> Option<NumberLiteral> {
    match (unsigned, signed, float) {
        (Some(n), _, _) => Some(NumberLiteral::Unsigned(n)),
        (None, Some(n), _) => Some(NumberLiteral::Signed(n)),
        (None, None, Some(bits)) => Some(NumberLiteral::Float { bits }),
        (None, None, None) => None,
    }
}

impl NumberLiteral {
    /// The literal of a number that is given by the forms that can hold it:
    /// the unsigned form where there is one, else the signed one, else the
    /// floating-point one, by its bits. A number that no form holds has no
    /// literal.
    pub fn from_forms(unsigned: Option<u64>, signed: Option<i64>, float: Option<u64>) -> (literal:
        Option<NumberLiteral>)
        ensures
            literal == number_of_forms(unsigned, signed, float),
    {
        if let Some(n) = unsigned {
            Some(NumberLiteral::Unsigned(n))
        } else if let Some(n) = signed {
            Some(NumberLiteral::Signed(n))
        } else if let Some(bits) = float {
            Some(NumberLiteral::Float { bits })
        } else {
            None
        }
    }
}

/// A literal value: null, a boolean, a number, a string, an ordered list or a
/// keyed record whose entries keep their order.
#[derive(Debug, PartialEq, Eq)]
pub enum Literal {
    Null,
    Bool(bool),
    Number(NumberLiteral),
    String(String),
    Array(Vec<Literal>),
    Object(Vec<(String, Literal)>),
}

/// The mathematical value of a [`Literal`].
pub enum LiteralView {
    Null,
    Bool(bool),
    Number(NumberLiteral),
    String(Seq<char>),
    Array(Seq<LiteralView>),
    Object(Seq<(Seq<char>, LiteralView)>),
}

/// The view of a literal.
pub open spec fn literal_view(literal: Literal) -> LiteralView
    decreases literal,
{
    match literal {
        Literal::Null => LiteralView::Null,
        Literal::Bool(b) => LiteralView::Bool(b),
        Literal::Number(n) => LiteralView::Number(n),
        Literal::String(s) => LiteralView::String(s@),
        Literal::Array(items) => LiteralView::Array(
            Seq::new(
                items.len() as nat,
                |i: int|
                    if 0 <= i < items.len() {
                        literal_view(items[i])
                    } else {
                        LiteralView::Null
                    },
            ),
        ),
        Literal::Object(fields) => LiteralView::Object(
            Seq::new(
                fields.len() as nat,
                |i: int|
                    if 0 <= i < fields.len() {
                        (fields[i].0@, literal_view(fields[i].1))
                    } else {
                        (Seq::empty(), LiteralView::Null)
                    },
            ),
        ),
    }
}

impl View for Literal {
    type V = LiteralView;

    open spec fn view(&self) -> LiteralView {
        literal_view(*self)
    }
}

impl Clone for Literal {
    fn clone(&self) -> (copy: Self)
        ensures
            copy@ == self@,
        decreases self,
    {
        match self {
            Literal::Null => Literal::Null,
            Literal::Bool(b) => Literal::Bool(*b),
            Literal::Number(n) => Literal::Number(*n),
            Literal::String(s) => Literal::String(s.clone()),
            Literal::Array(items) => {
                let mut copies: Vec<Literal> = Vec::new();
                let mut i: usize = 0;
                while i < items.len()
                    invariant
                        self is Array,
                        self->Array_0 == *items,
                        i <= items.len(),
                        copies.len() == i,
                        forall|j: int| 0 <= j < i ==> copies[j]@ == items[j]@,
                    decreases items.len() - i,
                {
                    copies.push(items[i].clone());
                    i += 1;
                }
                let copy = Literal::Array(copies);
                assert(copy@->Array_0 =~= self@->Array_0);
                copy
            },
            Literal::Object(fields) => {
                let mut copies: Vec<(String, Literal)> = Vec::new();
                let mut i: usize = 0;
                while i < fields.len()
                    invariant
                        self is Object,
                        self->Object_0 == *fields,
                        i <= fields.len(),
                        copies.len() == i,
                        forall|j: int|
                            0 <= j < i ==> copies[j].0@ == fields[j].0@ && copies[j].1@
                                == fields[j].1@,
                    decreases fields.len() - i,
                {
                    copies.push((fields[i].0.clone(), fields[i].1.clone()));
                    i += 1;
                }
                let copy = Literal::Object(copies);
                assert(copy@->Object_0 =~= self@->Object_0);
                copy
            },
        }
    }
}

} // verus!
