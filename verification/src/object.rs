//! Runtime values.

use std::rc::Rc;
use vstd::prelude::*;

verus! {

/// `Rc::clone` of the standard library: another pointer to the same value.
#[verifier::external_body]
pub(crate) fn share<T>(value: &Rc<T>) -> (r: Rc<T>)
    ensures
        r == *value,
{
    Rc::clone(value)
}

/// An arithmetic operation on floating-point numbers.
#[derive(Debug, Clone, Copy, PartialEq, Eq, Structural)]
pub enum FloatOp {
    Add,
    Sub,
    Mul,
    Div,
}

/// A floating-point value, held as the computation that yields it: the
/// numeral of a literal, or an operation on such values.
///
/// No rule of the language looks into a floating-point value, so the
/// arithmetic is left to whoever shows or stores the value; it is to be
/// carried out in 64-bit IEEE-754 arithmetic, operands before operations.
/// Operands are shared, not copied: a value that was computed from a
/// variable points to the value of the variable.
#[derive(Debug, PartialEq)]
pub enum FloatTerm {
    /// A literal, by the text of its numeral.
    Lit(String),
    /// The negation of a value.
    Neg(Rc<FloatTerm>),
    /// An operation on two values: left operand, operation, right operand.
    Bin(Rc<FloatTerm>, FloatOp, Rc<FloatTerm>),
}

/// The model of a [`FloatTerm`].
pub enum FloatTermView {
    Lit(Seq<char>),
    Neg(Box<FloatTermView>),
    Bin(Box<FloatTermView>, FloatOp, Box<FloatTermView>),
}

/// The model of `t`.
pub open spec fn float_term_view(t: FloatTerm) -> FloatTermView
    decreases t,
{
    match t {
        FloatTerm::Lit(numeral) => FloatTermView::Lit(numeral@),
        FloatTerm::Neg(operand) => FloatTermView::Neg(Box::new(float_term_view(*operand))),
        FloatTerm::Bin(l, op, r) => FloatTermView::Bin(
            Box::new(float_term_view(*l)),
            op,
            Box::new(float_term_view(*r)),
        ),
    }
}

impl View for FloatTerm {
    type V = FloatTermView;

    open spec fn view(&self) -> FloatTermView {
        float_term_view(*self)
    }
}

/// A runtime value.
#[derive(Debug, PartialEq)]
pub enum Object {
    Int(i64),
    Float(Rc<FloatTerm>),
    Str(String),
    /// The value of a `return`, which ends the block it is evaluated in.
    Return(Box<Object>),
    Null,
}

/// The model of an [`Object`].
pub enum ObjectView {
    Int(i64),
    Float(FloatTermView),
    Str(Seq<char>),
    Return(Box<ObjectView>),
    Null,
}

/// The model of `o`.
pub open spec fn object_view(o: Object) -> ObjectView
    decreases o,
{
    match o {
        Object::Int(i) => ObjectView::Int(i),
        Object::Float(f) => ObjectView::Float(float_term_view(*f)),
        Object::Str(s) => ObjectView::Str(s@),
        Object::Return(inner) => ObjectView::Return(Box::new(object_view(*inner))),
        Object::Null => ObjectView::Null,
    }
}

impl View for Object {
    type V = ObjectView;

    open spec fn view(&self) -> ObjectView {
        object_view(*self)
    }
}

impl Clone for Object {
    fn clone(&self) -> (res: Object)
        ensures
            res == *self,
        decreases self,
    {
        match self {
            Object::Int(i) => Object::Int(*i),
            Object::Float(f) => Object::Float(share(f)),
            Object::Str(s) => Object::Str(s.clone()),
            Object::Return(inner) => Object::Return(Box::new((&**inner).clone())),
            Object::Null => Object::Null,
        }
    }
}

} // verus!
