//! Evaluation of integer expressions is arithmetic.

use vstd::prelude::*;
use crate::ast::ast::ExprView;
use crate::interpreter::{eval, float_op_of, truncated_quotient, Env, InterpreterErrorView};
use crate::object::ObjectView;
use crate::token::TokenView;

verus! {

/// An expression of integer literals, `+ - * /` and negation only.
pub open spec fn is_arithmetic(e: ExprView) -> bool
    decreases e,
{
    match e {
        ExprView::NumLit(_) => true,
        ExprView::Infix(l, op, r) => float_op_of(op) is Some && is_arithmetic(*l) && is_arithmetic(
            *r,
        ),
        ExprView::Prefix(op, operand) => op == TokenView::Minus && is_arithmetic(*operand),
        _ => false,
    }
}

/// The integer that an arithmetic expression denotes, where division rounds
/// towards zero.
pub open spec fn arithmetic_value(e: ExprView) -> int
    decreases e,
{
    match e {
        ExprView::NumLit(n) => n as int,
        ExprView::Infix(l, op, r) => {
            let a = arithmetic_value(*l);
            let b = arithmetic_value(*r);
            match op {
                TokenView::Plus => a + b,
                TokenView::Minus => a - b,
                TokenView::Multiply => a * b,
                _ => truncated_quotient(a, b),
            }
        },
        ExprView::Prefix(_, operand) => -arithmetic_value(*operand),
        _ => 0,
    }
}

/// Whether 64-bit arithmetic can follow an arithmetic expression: every
/// intermediate result fits, and no divisor is zero.
pub open spec fn arithmetic_defined(e: ExprView) -> bool
    decreases e,
{
    match e {
        ExprView::NumLit(_) => true,
        ExprView::Infix(l, op, r) => {
            &&& arithmetic_defined(*l)
            &&& arithmetic_defined(*r)
            &&& op == TokenView::Divide ==> arithmetic_value(*r) != 0
            &&& i64::MIN <= arithmetic_value(e) <= i64::MAX
        },
        ExprView::Prefix(_, operand) => {
            &&& arithmetic_defined(*operand)
            &&& i64::MIN <= arithmetic_value(e) <= i64::MAX
        },
        _ => false,
    }
}

/// Evaluation is arithmetic: an expression of integer literals and
/// `+ - * /` evaluates, in any environment, to the integer it denotes with
/// division rounding towards zero, as long as 64-bit arithmetic can follow;
/// where it cannot, the evaluation fails.
pub proof fn lemma_evaluation_is_arithmetic(env: Env, e: ExprView)
    requires
        is_arithmetic(e),
    ensures
        arithmetic_defined(e) ==> eval(env, e) == Ok::<ObjectView, InterpreterErrorView>(
            ObjectView::Int(arithmetic_value(e) as i64),
        ),
        !arithmetic_defined(e) ==> eval(env, e) is Err,
    decreases e,
{
    match e {
        ExprView::Infix(l, op, r) => {
            lemma_evaluation_is_arithmetic(env, *l);
            lemma_evaluation_is_arithmetic(env, *r);
        },
        ExprView::Prefix(op, operand) => {
            lemma_evaluation_is_arithmetic(env, *operand);
        },
        _ => {},
    }
}

} // verus!
