//! The value of a block, and the mark of a `return`.

use vstd::prelude::*;
use crate::ast::ast::{ExprView, StmtView};
use crate::grammar::parse_program;
use crate::interpreter::{
    eval, run, run_block, run_from, run_stmt, Env, InterpreterErrorView, InterpreterView,
};
use crate::object::ObjectView;

verus! {

/// No value of the environment is marked as returned.
pub open spec fn holds_no_return(env: Env) -> bool {
    forall|x: Seq<char>| env.contains_key(x) ==> !(#[trigger] env[x] is Return)
}

/// An expression never evaluates to a value that is marked as returned.
pub proof fn lemma_eval_yields_no_return(env: Env, e: ExprView)
    requires
        holds_no_return(env),
    ensures
        eval(env, e) is Ok ==> !(eval(env, e)->Ok_0 is Return),
    decreases e,
{
    match e {
        ExprView::Infix(l, op, r) => {
            lemma_eval_yields_no_return(env, *l);
            lemma_eval_yields_no_return(env, *r);
        },
        ExprView::Prefix(op, operand) => {
            lemma_eval_yields_no_return(env, *operand);
        },
        _ => {},
    }
}

/// A value that is not marked as returned, or is marked once.
pub open spec fn marked_at_most_once(v: ObjectView) -> bool {
    match v {
        ObjectView::Return(inner) => !(*inner is Return),
        _ => true,
    }
}

/// Only a `return` statement yields a value that is marked as returned, and
/// no statement stores one.
pub proof fn lemma_stmt_keeps_no_return(env: Env, s: StmtView)
    requires
        holds_no_return(env),
    ensures
        holds_no_return(run_stmt(env, s).0),
        !(s is Return) && run_stmt(env, s).1 is Ok ==> !(run_stmt(env, s).1->Ok_0 is Return),
        run_stmt(env, s).1 is Ok ==> marked_at_most_once(run_stmt(env, s).1->Ok_0),
    decreases s, 0int,
{
    match s {
        StmtView::Expr(e) => {
            lemma_eval_yields_no_return(env, e);
        },
        StmtView::Return(e) => {
            lemma_eval_yields_no_return(env, e);
        },
        StmtView::Block(stmts) => {
            lemma_run_keeps_no_return(env, stmts, 0, ObjectView::Null);
        },
        StmtView::Let(target, _, value) => {
            lemma_eval_yields_no_return(env, value);
        },
        StmtView::Assign(target, value) => {
            lemma_eval_yields_no_return(env, value);
        },
    }
}

/// No run stores a value that is marked as returned, and none yields a
/// value that is marked twice.
pub proof fn lemma_run_keeps_no_return(env: Env, stmts: Seq<StmtView>, i: int, last: ObjectView)
    requires
        holds_no_return(env),
        !(last is Return),
    ensures
        holds_no_return(run_from(env, stmts, i, last).0),
        run_from(env, stmts, i, last).1 is Ok ==> marked_at_most_once(
            run_from(env, stmts, i, last).1->Ok_0,
        ),
    decreases stmts, stmts.len() - i,
{
    if 0 <= i < stmts.len() {
        lemma_stmt_keeps_no_return(env, stmts[i]);
        let (next, r) = run_stmt(env, stmts[i]);
        if r is Ok && !(r->Ok_0 is Return) {
            lemma_run_keeps_no_return(next, stmts, i + 1, r->Ok_0);
        }
    }
}

/// No run of the pipeline stores a value that is marked as returned: an
/// interpreter that starts without variables never holds one.
pub proof fn lemma_pipeline_keeps_no_return(i: InterpreterView)
    requires
        holds_no_return(i.env),
    ensures
        holds_no_return(run(i).0.env),
{
    let tree = parse_program(i.parser.text, i.parser.cursor, i.parser.fault).1;
    if tree is Ok {
        lemma_run_keeps_no_return(i.env, tree->Ok_0, 0, ObjectView::Null);
    }
}

/// The run of all statements but the last, and then the last one.
proof fn lemma_run_ends_with_last(env: Env, stmts: Seq<StmtView>, i: int, last: ObjectView)
    requires
        stmts.len() > 0,
        0 <= i < stmts.len(),
        holds_no_return(env),
        forall|k: int| 0 <= k < stmts.len() - 1 ==> !(#[trigger] stmts[k] is Return),
    ensures
        match run_from(env, stmts.drop_last(), i, last) {
            (before, Ok(_)) => run_from(env, stmts, i, last) == run_stmt(before, stmts.last()),
            failed => run_from(env, stmts, i, last) == failed,
        },
    decreases stmts.len() - i,
{
    let front = stmts.drop_last();
    let (next, r) = run_stmt(env, stmts[i]);
    if i < stmts.len() - 1 {
        assert(front[i] == stmts[i]);
        lemma_stmt_keeps_no_return(env, stmts[i]);
        if r is Ok {
            assert(run_from(env, front, i, last) == run_from(next, front, i + 1, r->Ok_0));
            lemma_run_ends_with_last(next, stmts, i + 1, r->Ok_0);
        }
    } else {
        assert(run_from(env, front, i, last) == (
            env,
            Ok::<ObjectView, InterpreterErrorView>(last),
        ));
        if r is Ok && !(r->Ok_0 is Return) {
            assert(run_from(next, stmts, i + 1, r->Ok_0) == (
                next,
                Ok::<ObjectView, InterpreterErrorView>(r->Ok_0),
            ));
        }
    }
}

/// A block without `return` has the value of its last statement: where no
/// statement of the block but perhaps the last is a `return`, running the
/// block is running the last statement behind the others, unless one of
/// the others fails, which is then how the block fails.
pub proof fn lemma_block_value_is_last(env: Env, stmts: Seq<StmtView>)
    requires
        stmts.len() > 0,
        holds_no_return(env),
        forall|k: int| 0 <= k < stmts.len() - 1 ==> !(#[trigger] stmts[k] is Return),
    ensures
        match run_block(env, stmts.drop_last()) {
            (before, Ok(_)) => run_block(env, stmts) == run_stmt(before, stmts.last()),
            failed => run_block(env, stmts) == failed,
        },
{
    lemma_run_ends_with_last(env, stmts, 0, ObjectView::Null);
}

} // verus!
