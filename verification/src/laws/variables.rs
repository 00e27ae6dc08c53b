//! What is read from a variable is what was last stored to it, and a run
//! depends on nothing but the environment and the tree.

use vstd::prelude::*;
use crate::ast::ast::{ExprView, StmtView, TypeView};
use crate::interpreter::{eval, run_block, run_from, run_stmt, Env};
use crate::object::ObjectView;

verus! {

/// Whether `s` stores to the variable `x`: as a declaration or an assignment
/// of `x`, or as a block that holds one.
pub open spec fn stores_to(s: StmtView, x: Seq<char>) -> bool
    decreases s,
{
    match s {
        StmtView::Let(target, _, _) => target == ExprView::Var(x),
        StmtView::Assign(target, _) => target == ExprView::Var(x),
        StmtView::Block(stmts) => exists|i: int|
            0 <= i < stmts.len() && stores_to(#[trigger] stmts[i], x),
        _ => false,
    }
}

/// The variable `x` is the same in both environments: absent from both, or
/// of one value.
pub open spec fn same_at(a: Env, b: Env, x: Seq<char>) -> bool {
    a.contains_key(x) == b.contains_key(x) && (a.contains_key(x) ==> a[x] == b[x])
}

/// A statement that does not store to a variable leaves it as it was,
/// whether the statement succeeds or fails.
pub proof fn lemma_untouched_by_stmt(env: Env, s: StmtView, x: Seq<char>)
    requires
        !stores_to(s, x),
    ensures
        same_at(env, run_stmt(env, s).0, x),
    decreases s, 0int,
{
    match s {
        StmtView::Block(stmts) => {
            lemma_untouched_by_run(env, stmts, 0, ObjectView::Null, x);
        },
        _ => {},
    }
}

/// Statements that do not store to a variable leave it as it was.
pub proof fn lemma_untouched_by_run(
    env: Env,
    stmts: Seq<StmtView>,
    i: int,
    last: ObjectView,
    x: Seq<char>,
)
    requires
        forall|k: int| 0 <= k < stmts.len() ==> !stores_to(#[trigger] stmts[k], x),
    ensures
        same_at(env, run_from(env, stmts, i, last).0, x),
    decreases stmts, stmts.len() - i,
{
    if 0 <= i < stmts.len() {
        lemma_untouched_by_stmt(env, stmts[i], x);
        let (next, r) = run_stmt(env, stmts[i]);
        if r is Ok && !(r->Ok_0 is Return) {
            lemma_untouched_by_run(next, stmts, i + 1, r->Ok_0, x);
        }
    }
}

/// A declared variable reads as it was declared: once `let x: t = init` has
/// run, and then any statements that do not store to `x`, the expression `x`
/// has the value that `init` had.
pub proof fn lemma_declared_value_is_read(
    env: Env,
    x: Seq<char>,
    t: TypeView,
    init: ExprView,
    between: Seq<StmtView>,
)
    requires
        eval(env, init) is Ok,
        forall|k: int| 0 <= k < between.len() ==> !stores_to(#[trigger] between[k], x),
    ensures
        ({
            let declared = run_stmt(env, StmtView::Let(ExprView::Var(x), t, init)).0;
            let read_in = run_block(declared, between).0;
            eval(read_in, ExprView::Var(x)) == eval(env, init)
        }),
{
    let declared = run_stmt(env, StmtView::Let(ExprView::Var(x), t, init)).0;
    lemma_untouched_by_run(declared, between, 0, ObjectView::Null, x);
}

/// The later of two declarations of one name is the one that is read: no
/// earlier value is kept.
pub proof fn lemma_later_declaration_is_read(
    env: Env,
    x: Seq<char>,
    t1: TypeView,
    first: ExprView,
    t2: TypeView,
    second: ExprView,
)
    requires
        eval(env, first) is Ok,
    ensures
        ({
            let once = run_stmt(env, StmtView::Let(ExprView::Var(x), t1, first)).0;
            let twice = run_stmt(once, StmtView::Let(ExprView::Var(x), t2, second)).0;
            eval(once, second) is Ok ==> eval(twice, ExprView::Var(x)) == eval(once, second)
        }),
{
}

/// Evaluation is a function of the environment and the tree: two runs of
/// one tree from equal environments yield equal values and leave equal
/// environments.
pub proof fn lemma_run_is_deterministic(a: Env, b: Env, stmts: Seq<StmtView>)
    requires
        a == b,
    ensures
        run_block(a, stmts) == run_block(b, stmts),
{
}

} // verus!
