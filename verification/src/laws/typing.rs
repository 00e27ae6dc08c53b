//! What the checker accepts and rejects, and what its verdict is worth to
//! the evaluator.

use vstd::prelude::*;
use crate::ast::ast::{ExprView, StmtView, TypeView};
use crate::grammar::{
    advance, budget, further, is_expr_op, is_term_op, lemma_advance, not_behind, parse_expr,
    parse_expr_rest, parse_factor, parse_program, parse_term, parse_term_rest, Cursor,
};
use crate::interpreter::{eval, float_op_of, run, Env, InterpreterErrorView, InterpreterView};
use crate::object::ObjectView;
use crate::symbols::{
    check_block, check_from, check_stmt, infer, known_type, symbol_type, SymbolError,
    SymbolView, Table,
};
use crate::token::TokenView;

verus! {

/// Whether `s` declares the variable `x`, itself or in a block it holds.
pub open spec fn declares(s: StmtView, x: Seq<char>) -> bool
    decreases s,
{
    match s {
        StmtView::Let(target, _, _) => target == ExprView::Var(x),
        StmtView::Block(stmts) => exists|i: int|
            0 <= i < stmts.len() && declares(#[trigger] stmts[i], x),
        _ => false,
    }
}

/// The name `x` has the same entry in both tables, or none in both.
pub open spec fn same_entry(a: Table, b: Table, x: Seq<char>) -> bool {
    a.contains_key(x) == b.contains_key(x) && (a.contains_key(x) ==> a[x] == b[x])
}

/// A statement that does not declare a variable leaves its entry as it
/// was, whether the statement is accepted or rejected.
pub proof fn lemma_undeclared_by_stmt(table: Table, s: StmtView, x: Seq<char>)
    requires
        !declares(s, x),
    ensures
        same_entry(table, check_stmt(table, s).0, x),
    decreases s, 0int,
{
    match s {
        StmtView::Block(stmts) => {
            lemma_undeclared_by_check(table, stmts, 0, x);
        },
        _ => {},
    }
}

/// Statements that do not declare a variable leave its entry as it was.
pub proof fn lemma_undeclared_by_check(table: Table, stmts: Seq<StmtView>, i: int, x: Seq<char>)
    requires
        forall|k: int| 0 <= k < stmts.len() ==> !declares(#[trigger] stmts[k], x),
    ensures
        same_entry(table, check_from(table, stmts, i).0, x),
    decreases stmts, stmts.len() - i,
{
    if 0 <= i < stmts.len() {
        lemma_undeclared_by_stmt(table, stmts[i], x);
        let (next, verdict) = check_stmt(table, stmts[i]);
        if verdict is Ok {
            lemma_undeclared_by_check(next, stmts, i + 1, x);
        }
    }
}

/// A variable that was declared without `mut` is never assigned: once its
/// declaration was accepted, and whatever was checked since that did not
/// declare it anew, an assignment to it is rejected as `Immutable`.
pub proof fn lemma_immutable_stays_unassigned(
    table: Table,
    x: Seq<char>,
    t: TypeView,
    init: ExprView,
    between: Seq<StmtView>,
    value: ExprView,
)
    requires
        !t.mutable,
        check_stmt(table, StmtView::Let(ExprView::Var(x), t, init)).1 is Ok,
        forall|k: int| 0 <= k < between.len() ==> !declares(#[trigger] between[k], x),
    ensures
        ({
            let declared = check_stmt(table, StmtView::Let(ExprView::Var(x), t, init)).0;
            let later = check_block(declared, between).0;
            check_stmt(later, StmtView::Assign(ExprView::Var(x), value)) == (
                later,
                Err::<(), SymbolError>(SymbolError::Immutable),
            )
        }),
{
    let declared = check_stmt(table, StmtView::Let(ExprView::Var(x), t, init)).0;
    lemma_undeclared_by_check(declared, between, 0, x);
}

/// A declaration whose initializer has another type than the declared one
/// is rejected as `TypeMismatch`, and enters nothing.
pub proof fn lemma_mismatched_declaration_is_rejected(
    table: Table,
    x: Seq<char>,
    t: TypeView,
    init: ExprView,
)
    requires
        known_type(table, t),
        infer(table, init) is Ok,
        infer(table, init)->Ok_0.t != t.t,
    ensures
        check_stmt(table, StmtView::Let(ExprView::Var(x), t, init)) == (
            table,
            Err::<(), SymbolError>(SymbolError::TypeMismatch),
        ),
{
}

/// An accepted declaration names a known type, its initializer has that
/// type, and the variable is entered with it.
pub proof fn lemma_accepted_declaration(table: Table, x: Seq<char>, t: TypeView, init: ExprView)
    requires
        check_stmt(table, StmtView::Let(ExprView::Var(x), t, init)).1 is Ok,
    ensures
        known_type(table, t),
        infer(table, init) is Ok,
        infer(table, init)->Ok_0.t == t.t,
        check_stmt(table, StmtView::Let(ExprView::Var(x), t, init)).0 == table.insert(
            x,
            SymbolView::Var(x, t),
        ),
{
}

/// An accepted assignment goes to a variable that is mutable, its value has
/// the declared type of the variable, and the table stays as it is.
pub proof fn lemma_accepted_assignment(table: Table, x: Seq<char>, value: ExprView)
    requires
        check_stmt(table, StmtView::Assign(ExprView::Var(x), value)).1 is Ok,
    ensures
        table.contains_key(x),
        table[x] is Var,
        symbol_type(table[x]).mutable,
        infer(table, value) is Ok,
        infer(table, value)->Ok_0.t == symbol_type(table[x]).t,
        check_stmt(table, StmtView::Assign(ExprView::Var(x), value)).0 == table,
{
}

/// Whether the name `x` stands in `e`.
pub open spec fn mentions(e: ExprView, x: Seq<char>) -> bool
    decreases e,
{
    match e {
        ExprView::Var(name) => name == x,
        ExprView::Infix(l, _, r) => mentions(*l, x) || mentions(*r, x),
        ExprView::Prefix(_, operand) => mentions(*operand, x),
        _ => false,
    }
}

/// Every name in an expression that has a type is bound in the table.
pub proof fn lemma_typed_expression_is_bound(table: Table, e: ExprView, x: Seq<char>)
    requires
        infer(table, e) is Ok,
        mentions(e, x),
    ensures
        table.contains_key(x),
    decreases e,
{
    match e {
        ExprView::Infix(l, _, r) => {
            if mentions(*l, x) {
                lemma_typed_expression_is_bound(table, *l, x);
            } else {
                lemma_typed_expression_is_bound(table, *r, x);
            }
        },
        ExprView::Prefix(_, operand) => {
            lemma_typed_expression_is_bound(table, *operand, x);
        },
        _ => {},
    }
}

/// The type that values of a kind have: `int` for integers, `float` for
/// floating-point values, none for the others.
pub open spec fn kind_of(v: ObjectView) -> Option<TokenView> {
    match v {
        ObjectView::Int(_) => Some(TokenView::IntType),
        ObjectView::Float(_) => Some(TokenView::FloatType),
        _ => None,
    }
}

/// The environment holds, for every variable of the table, a value of the
/// declared type.
pub open spec fn agrees(table: Table, env: Env) -> bool {
    forall|x: Seq<char>| #[trigger]
        table.contains_key(x) && table[x] is Var ==> env.contains_key(x) && kind_of(env[x])
            == Some(symbol_type(table[x]).t)
}

/// An expression as the grammar builds them: literals, variables, the four
/// operations and negation.
pub open spec fn is_built(e: ExprView) -> bool
    decreases e,
{
    match e {
        ExprView::NumLit(_) => true,
        ExprView::FloatLit(_) => true,
        ExprView::Var(_) => true,
        ExprView::Infix(l, op, r) => float_op_of(op) is Some && is_built(*l) && is_built(*r),
        ExprView::Prefix(op, operand) => op == TokenView::Minus && is_built(*operand),
        ExprView::Noop => false,
    }
}

/// Every expression that the grammar yields is built of literals,
/// variables, the four operations and negation.
pub proof fn lemma_factor_is_built(text: Seq<u8>, c: Cursor)
    ensures
        parse_factor(text, c).1 is Ok ==> is_built(parse_factor(text, c).1->Ok_0),
    decreases budget(text, c), 0int,
{
    lemma_advance(text, c);
    let c1 = advance(text, c).0;
    if c.tok == TokenView::Minus && advance(text, c).1 is Ok {
        lemma_factor_is_built(text, c1);
    }
    if c.tok == TokenView::LeftParen && advance(text, c).1 is Ok {
        lemma_expr_is_built(text, c1);
    }
}

/// See `lemma_factor_is_built`.
pub proof fn lemma_term_rest_is_built(text: Seq<u8>, c: Cursor, left: ExprView)
    requires
        is_built(left),
    ensures
        parse_term_rest(text, c, left).1 is Ok ==> is_built(
            parse_term_rest(text, c, left).1->Ok_0,
        ),
    decreases budget(text, c), 1int,
{
    if is_term_op(c.tok) {
        lemma_advance(text, c);
        let (c1, r) = advance(text, c);
        if r is Ok {
            lemma_factor_is_built(text, c1);
            let (c2, right) = parse_factor(text, c1);
            if right is Ok && further(text, c, c2) {
                lemma_term_rest_is_built(
                    text,
                    c2,
                    ExprView::Infix(Box::new(left), c.tok, Box::new(right->Ok_0)),
                );
            }
        }
    }
}

/// See `lemma_factor_is_built`.
pub proof fn lemma_term_is_built(text: Seq<u8>, c: Cursor)
    ensures
        parse_term(text, c).1 is Ok ==> is_built(parse_term(text, c).1->Ok_0),
    decreases budget(text, c), 2int,
{
    lemma_factor_is_built(text, c);
    let (c1, first) = parse_factor(text, c);
    if first is Ok && not_behind(text, c, c1) {
        lemma_term_rest_is_built(text, c1, first->Ok_0);
    }
}

/// See `lemma_factor_is_built`.
pub proof fn lemma_expr_rest_is_built(text: Seq<u8>, c: Cursor, left: ExprView)
    requires
        is_built(left),
    ensures
        parse_expr_rest(text, c, left).1 is Ok ==> is_built(
            parse_expr_rest(text, c, left).1->Ok_0,
        ),
    decreases budget(text, c), 3int,
{
    if is_expr_op(c.tok) {
        lemma_advance(text, c);
        let (c1, r) = advance(text, c);
        if r is Ok {
            lemma_term_is_built(text, c1);
            let (c2, right) = parse_term(text, c1);
            if right is Ok && further(text, c, c2) {
                lemma_expr_rest_is_built(
                    text,
                    c2,
                    ExprView::Infix(Box::new(left), c.tok, Box::new(right->Ok_0)),
                );
            }
        }
    }
}

/// See `lemma_factor_is_built`.
pub proof fn lemma_expr_is_built(text: Seq<u8>, c: Cursor)
    ensures
        parse_expr(text, c).1 is Ok ==> is_built(parse_expr(text, c).1->Ok_0),
    decreases budget(text, c), 4int,
{
    lemma_term_is_built(text, c);
    let (c1, first) = parse_term(text, c);
    if first is Ok && not_behind(text, c, c1) {
        lemma_expr_rest_is_built(text, c1, first->Ok_0);
    }
}

/// An expression as the grammar builds them, whose names are variables
/// where the table holds them.
pub open spec fn is_numeric(table: Table, e: ExprView) -> bool {
    &&& is_built(e)
    &&& forall|x: Seq<char>| #[trigger]
        mentions(e, x) && table.contains_key(x) ==> table[x] is Var
}

/// A checked expression does not go wrong: where the environment agrees
/// with the table, an expression that has a type evaluates to a value of
/// that type, unless an integer operation overflows or divides by zero.
pub proof fn lemma_typed_expression_evaluates(table: Table, env: Env, e: ExprView)
    requires
        agrees(table, env),
        is_numeric(table, e),
        infer(table, e) is Ok,
    ensures
        match eval(env, e) {
            Ok(v) => kind_of(v) == Some(infer(table, e)->Ok_0.t),
            Err(fault) => fault == InterpreterErrorView::DivisionByZero || fault
                == InterpreterErrorView::Overflow,
        },
    decreases e,
{
    match e {
        ExprView::Var(name) => {
            assert(mentions(e, name));
            assert(table.contains_key(name) && table[name] is Var);
        },
        ExprView::Infix(l, op, r) => {
            assert forall|x: Seq<char>| #[trigger]
                mentions(*l, x) && table.contains_key(x) implies table[x] is Var by {
                assert(mentions(e, x));
            }
            assert forall|x: Seq<char>| #[trigger]
                mentions(*r, x) && table.contains_key(x) implies table[x] is Var by {
                assert(mentions(e, x));
            }
            lemma_typed_expression_evaluates(table, env, *l);
            lemma_typed_expression_evaluates(table, env, *r);
        },
        ExprView::Prefix(op, operand) => {
            assert forall|x: Seq<char>| #[trigger]
                mentions(*operand, x) && table.contains_key(x) implies table[x] is Var by {
                assert(mentions(e, x));
            }
            lemma_typed_expression_evaluates(table, env, *operand);
        },
        _ => {},
    }
}

/// Nothing of a tree that the checker rejects is evaluated: the run fails
/// with the checker's verdict and the environment is as it was.
pub proof fn lemma_rejected_tree_is_not_run(i: InterpreterView)
    requires
        parse_program(i.parser.text, i.parser.cursor, i.parser.fault).1 is Ok,
        check_block(
            i.table,
            parse_program(i.parser.text, i.parser.cursor, i.parser.fault).1->Ok_0,
        ).1 is Err,
    ensures
        run(i).0.env == i.env,
        run(i).1 == Err::<ObjectView, InterpreterErrorView>(
            InterpreterErrorView::SymbolError(
                check_block(
                    i.table,
                    parse_program(i.parser.text, i.parser.cursor, i.parser.fault).1->Ok_0,
                ).1->Err_0,
            ),
        ),
{
}

} // verus!
