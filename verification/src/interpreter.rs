//! The evaluator: a walk over a checked tree that yields a value and
//! changes the environment of variables.
//!
//! The functions of the first half of this file say what the walk yields on
//! an environment and a tree; the `Interpreter` computes exactly that.
//! Integer arithmetic is exact: a result that does not fit 64 bits, and a
//! division by zero, end the run with an error.

use std::rc::Rc;
use vstd::prelude::*;
use vstd::hash_map::StringHashMap;
use crate::ast::ast::{BlockStmt, Expr, ExprView, Stmt, StmtView};
use crate::errors::{ParseError, ParseErrorView};
use crate::object::{
    float_term_view, share, FloatOp, FloatTerm, FloatTermView, Object, ObjectView,
};
use crate::grammar::parse_program;
use crate::parser::{feed, Parser, ParserView};
use crate::symbols::{check_block, SymbolError, SymbolTableBuilder, Table};
use crate::token::{Token, TokenView};

verus! {

/// Why a run stopped.
#[derive(Debug, PartialEq)]
pub enum InterpreterError {
    /// A variable that the environment does not hold.
    UndefinedVariable,
    /// Operands that are not both integers or both floating-point numbers,
    /// or an operand of a negation that is no number.
    OperandMismatch,
    /// A token that is no arithmetic operator, in the place of one.
    UnknownOperator,
    /// An integer division by zero.
    DivisionByZero,
    /// An integer result that does not fit 64 bits.
    Overflow,
    /// A declaration or an assignment whose target is no variable.
    InvalidTarget,
    /// The text does not parse.
    ParseError(ParseError),
    /// The tree does not check.
    SymbolError(SymbolError),
}

/// The model of an [`InterpreterError`].
pub enum InterpreterErrorView {
    UndefinedVariable,
    OperandMismatch,
    UnknownOperator,
    DivisionByZero,
    Overflow,
    InvalidTarget,
    ParseError(ParseErrorView),
    SymbolError(SymbolError),
}

impl View for InterpreterError {
    type V = InterpreterErrorView;

    open spec fn view(&self) -> InterpreterErrorView {
        match self {
            InterpreterError::UndefinedVariable => InterpreterErrorView::UndefinedVariable,
            InterpreterError::OperandMismatch => InterpreterErrorView::OperandMismatch,
            InterpreterError::UnknownOperator => InterpreterErrorView::UnknownOperator,
            InterpreterError::DivisionByZero => InterpreterErrorView::DivisionByZero,
            InterpreterError::Overflow => InterpreterErrorView::Overflow,
            InterpreterError::InvalidTarget => InterpreterErrorView::InvalidTarget,
            InterpreterError::ParseError(e) => InterpreterErrorView::ParseError(e@),
            InterpreterError::SymbolError(e) => InterpreterErrorView::SymbolError(*e),
        }
    }
}

/// The model of an environment: values by name.
pub type Env = Map<Seq<char>, ObjectView>;

/// What an evaluation yields: a value, or why there is none.
pub type Value = Result<ObjectView, InterpreterErrorView>;

/// The view of what an evaluation returns.
pub open spec fn value_view(r: Result<Object, InterpreterError>) -> Value {
    match r {
        Ok(o) => Ok(o@),
        Err(e) => Err(e@),
    }
}

/// The quotient of `a` by `b`, rounded towards zero; `b` is not zero.
pub open spec fn truncated_quotient(a: int, b: int) -> int {
    if a >= 0 && b > 0 {
        a / b
    } else if a < 0 && b < 0 {
        (-a) / (-b)
    } else if a < 0 {
        -((-a) / b)
    } else {
        -(a / (-b))
    }
}

/// The integer `v` as a value, if it fits 64 bits.
pub open spec fn int_value(v: int) -> Value {
    if i64::MIN <= v <= i64::MAX {
        Ok(ObjectView::Int(v as i64))
    } else {
        Err(InterpreterErrorView::Overflow)
    }
}

/// An arithmetic operation on two integers.
pub open spec fn int_operation(l: i64, op: TokenView, r: i64) -> Value {
    match op {
        TokenView::Plus => int_value(l + r),
        TokenView::Minus => int_value(l - r),
        TokenView::Multiply => int_value(l * r),
        TokenView::Divide => {
            if r == 0 {
                Err(InterpreterErrorView::DivisionByZero)
            } else {
                int_value(truncated_quotient(l as int, r as int))
            }
        },
        _ => Err(InterpreterErrorView::UnknownOperator),
    }
}

/// The floating-point operation that an operator token stands for.
pub open spec fn float_op_of(op: TokenView) -> Option<FloatOp> {
    match op {
        TokenView::Plus => Some(FloatOp::Add),
        TokenView::Minus => Some(FloatOp::Sub),
        TokenView::Multiply => Some(FloatOp::Mul),
        TokenView::Divide => Some(FloatOp::Div),
        _ => None,
    }
}

/// An arithmetic operation on two floating-point values.
pub open spec fn float_operation(l: FloatTermView, op: TokenView, r: FloatTermView) -> Value {
    match float_op_of(op) {
        Some(f) => Ok(ObjectView::Float(FloatTermView::Bin(Box::new(l), f, Box::new(r)))),
        None => Err(InterpreterErrorView::UnknownOperator),
    }
}

/// A binary operation: on two integers or on two floating-point values.
pub open spec fn infix_operation(l: ObjectView, op: TokenView, r: ObjectView) -> Value {
    match (l, r) {
        (ObjectView::Int(a), ObjectView::Int(b)) => int_operation(a, op, b),
        (ObjectView::Float(a), ObjectView::Float(b)) => float_operation(a, op, b),
        _ => Err(InterpreterErrorView::OperandMismatch),
    }
}

/// A unary operation: the negation of a number.
pub open spec fn prefix_operation(op: TokenView, operand: ObjectView) -> Value {
    match op {
        TokenView::Minus => {
            match operand {
                ObjectView::Int(i) => int_value(-i),
                ObjectView::Float(f) => Ok(ObjectView::Float(FloatTermView::Neg(Box::new(f)))),
                _ => Err(InterpreterErrorView::OperandMismatch),
            }
        },
        _ => Err(InterpreterErrorView::UnknownOperator),
    }
}

/// The value of `e` under `env`. The left operand is evaluated before the
/// right one, and both before the operation.
pub open spec fn eval(env: Env, e: ExprView) -> Value
    decreases e,
{
    match e {
        ExprView::NumLit(n) => Ok(ObjectView::Int(n)),
        ExprView::FloatLit(numeral) => Ok(ObjectView::Float(FloatTermView::Lit(numeral))),
        ExprView::Noop => Ok(ObjectView::Null),
        ExprView::Var(name) => {
            if env.contains_key(name) {
                Ok(env[name])
            } else {
                Err(InterpreterErrorView::UndefinedVariable)
            }
        },
        ExprView::Infix(l, op, r) => {
            match eval(env, *l) {
                Ok(left) => {
                    match eval(env, *r) {
                        Ok(right) => infix_operation(left, op, right),
                        Err(e) => Err(e),
                    }
                },
                Err(e) => Err(e),
            }
        },
        ExprView::Prefix(op, operand) => {
            match eval(env, *operand) {
                Ok(v) => prefix_operation(op, v),
                Err(e) => Err(e),
            }
        },
    }
}

/// Stores the value of `value` under the target, which must be a variable.
/// The statement itself yields `Null`.
pub open spec fn store(env: Env, target: ExprView, value: ExprView) -> (Env, Value) {
    match target {
        ExprView::Var(name) => {
            match eval(env, value) {
                Ok(v) => (env.insert(name, v), Ok(ObjectView::Null)),
                Err(e) => (env, Err(e)),
            }
        },
        _ => (env, Err(InterpreterErrorView::InvalidTarget)),
    }
}

/// The value as it leaves a nested block: the mark of a `return` that ended
/// the block is taken off, so that the enclosing block goes on.
pub open spec fn leave_block(r: Value) -> Value {
    match r {
        Ok(ObjectView::Return(inner)) => Ok(*inner),
        other => other,
    }
}

/// Runs one statement: the environment behind it and what it yields.
///
/// A declaration and an assignment both store the value and yield `Null`.
/// A `return` yields its value marked as returned.
pub open spec fn run_stmt(env: Env, s: StmtView) -> (Env, Value)
    decreases s, 0int,
{
    match s {
        StmtView::Expr(e) => (env, eval(env, e)),
        StmtView::Return(e) => {
            match eval(env, e) {
                Ok(v) => (env, Ok(ObjectView::Return(Box::new(v)))),
                Err(e) => (env, Err(e)),
            }
        },
        StmtView::Block(stmts) => {
            let (after, r) = run_from(env, stmts, 0, ObjectView::Null);
            (after, leave_block(r))
        },
        StmtView::Let(target, _, init) => store(env, target, init),
        StmtView::Assign(target, value) => store(env, target, value),
    }
}

/// Runs the statements of `stmts` from the `i`-th on, in order; `last` is
/// what the statement before yielded. The first error ends the run, and so
/// does the first value that is marked as returned, which is then what the
/// run yields. Otherwise it yields what the last statement did.
pub open spec fn run_from(env: Env, stmts: Seq<StmtView>, i: int, last: ObjectView) -> (Env, Value)
    decreases stmts, stmts.len() - i,
{
    if 0 <= i < stmts.len() {
        let (next, r) = run_stmt(env, stmts[i]);
        match r {
            Ok(v) => {
                if v is Return {
                    (next, Ok(v))
                } else {
                    run_from(next, stmts, i + 1, v)
                }
            },
            Err(e) => (next, Err(e)),
        }
    } else {
        (env, Ok(last))
    }
}

/// Runs a block. An empty block yields `Null`.
pub open spec fn run_block(env: Env, stmts: Seq<StmtView>) -> (Env, Value) {
    run_from(env, stmts, 0, ObjectView::Null)
}

/// The model of an [`Interpreter`].
pub struct InterpreterView {
    pub parser: ParserView,
    pub table: Table,
    pub env: Env,
}

/// One run of the whole pipeline: parse, check, evaluate.
///
/// Text that does not parse leaves the table and the environment as they
/// were. A tree that does not check leaves the environment as it was:
/// nothing of it is evaluated. The declarations that were accepted before
/// the check failed stay in the table, and what was stored before an
/// evaluation failed stays in the environment.
pub open spec fn run(i: InterpreterView) -> (InterpreterView, Value) {
    let (cursor, tree) = parse_program(i.parser.text, i.parser.cursor, i.parser.fault);
    let parser = ParserView { text: i.parser.text, cursor, fault: i.parser.fault };
    match tree {
        Err(e) => (
            InterpreterView { parser, table: i.table, env: i.env },
            Err(InterpreterErrorView::ParseError(e)),
        ),
        Ok(stmts) => {
            let (table, verdict) = check_block(i.table, stmts);
            match verdict {
                Err(e) => (
                    InterpreterView { parser, table, env: i.env },
                    Err(InterpreterErrorView::SymbolError(e)),
                ),
                Ok(_) => {
                    let (env, r) = run_block(i.env, stmts);
                    (InterpreterView { parser, table, env }, r)
                },
            }
        },
    }
}

/// The interpreter: a parser, a checker, and the environment of variables,
/// which lasts from run to run.
pub struct Interpreter {
    parser: Parser,
    symtable: SymbolTableBuilder,
    global_scope: StringHashMap<Object>,
}

impl View for Interpreter {
    type V = InterpreterView;

    closed spec fn view(&self) -> InterpreterView {
        InterpreterView {
            parser: self.parser@,
            table: self.symtable.table(),
            env: self.global_scope@.map_values(|o: Object| o@),
        }
    }
}

impl Interpreter {
    /// An interpreter on `parser`, with the built-in types and no variable.
    pub fn new(parser: Parser) -> (interpreter: Self)
        ensures
            interpreter@ == (InterpreterView {
                parser: parser@,
                table: crate::symbols::builtin_table(),
                env: Map::<Seq<char>, ObjectView>::empty(),
            }),
    {
        let interpreter = Self {
            parser,
            global_scope: StringHashMap::new(),
            symtable: SymbolTableBuilder::new(),
        };
        assert(interpreter@.env =~= Map::<Seq<char>, ObjectView>::empty());
        interpreter
    }

    /// Runs the pipeline on the text that was fed: `run` of the interpreter
    /// as it stood.
    pub fn interpret(&mut self) -> (r: Result<Object, InterpreterError>)
        ensures
            (final(self)@, value_view(r)) == run(old(self)@),
    {
        let tree = match self.parser.parse() {
            Ok(tree) => tree,
            Err(e) => {
                return Err(InterpreterError::ParseError(e));
            },
        };
        match self.symtable.check(&tree) {
            Ok(()) => (),
            Err(e) => {
                return Err(InterpreterError::SymbolError(e));
            },
        }
        self.visit_block_stmt(&tree)
    }

    /// Feeds a line to the parser, and resets `append`.
    pub fn feed_next_line(&mut self, line: String, append: &mut bool)
        ensures
            final(self)@ == (InterpreterView {
                parser: feed(old(self)@.parser, line@, *old(append)),
                table: old(self)@.table,
                env: old(self)@.env,
            }),
            *final(append) == false,
    {
        self.parser.feed_next_line(line, *append);
        *append = false;
    }

    /// The result of a checked integer operation as a value.
    fn int_value(v: Option<i64>) -> (r: Result<Object, InterpreterError>)
        ensures
            value_view(r) == match v {
                Some(i) => Ok::<ObjectView, InterpreterErrorView>(ObjectView::Int(i)),
                None => Err(InterpreterErrorView::Overflow),
            },
    {
        match v {
            Some(i) => Ok(Object::Int(i)),
            None => Err(InterpreterError::Overflow),
        }
    }

    /// An arithmetic operation on two integers.
    fn int_expr(lhs: &i64, token: &Token, rhs: &i64) -> (r: Result<Object, InterpreterError>)
        ensures
            value_view(r) == int_operation(*lhs, token@, *rhs),
    {
        match token {
            Token::Plus => Self::int_value(lhs.checked_add(*rhs)),
            Token::Minus => Self::int_value(lhs.checked_sub(*rhs)),
            Token::Multiply => Self::int_value(lhs.checked_mul(*rhs)),
            Token::Divide => {
                if *rhs == 0 {
                    Err(InterpreterError::DivisionByZero)
                } else {
                    Self::int_value(lhs.checked_div(*rhs))
                }
            },
            _ => Err(InterpreterError::UnknownOperator),
        }
    }

    /// An arithmetic operation on two floating-point values: it is
    /// recorded, not carried out.
    fn float_expr(lhs: &Rc<FloatTerm>, token: &Token, rhs: &Rc<FloatTerm>) -> (r: Result<
        Object,
        InterpreterError,
    >)
        ensures
            value_view(r) == float_operation(
                float_term_view(**lhs),
                token@,
                float_term_view(**rhs),
            ),
    {
        let op = match token {
            Token::Plus => FloatOp::Add,
            Token::Minus => FloatOp::Sub,
            Token::Multiply => FloatOp::Mul,
            Token::Divide => FloatOp::Div,
            _ => {
                return Err(InterpreterError::UnknownOperator);
            },
        };
        Ok(Object::Float(Rc::new(FloatTerm::Bin(share(lhs), op, share(rhs)))))
    }

    /// A binary operation on two values.
    fn visit_infix(lhs: &Object, token: &Token, rhs: &Object) -> (r: Result<
        Object,
        InterpreterError,
    >)
        ensures
            value_view(r) == infix_operation(lhs@, token@, rhs@),
    {
        match (lhs, rhs) {
            (Object::Int(i1), Object::Int(i2)) => Self::int_expr(i1, token, i2),
            (Object::Float(f1), Object::Float(f2)) => Self::float_expr(f1, token, f2),
            (_, _) => Err(InterpreterError::OperandMismatch),
        }
    }

    /// A unary operation on a value.
    fn visit_prefix(token: &Token, rhs: &Object) -> (r: Result<Object, InterpreterError>)
        ensures
            value_view(r) == prefix_operation(token@, rhs@),
    {
        match token {
            Token::Minus => {
                match rhs {
                    Object::Int(i) => Self::int_value(0i64.checked_sub(*i)),
                    Object::Float(f) => Ok(Object::Float(Rc::new(FloatTerm::Neg(share(f))))),
                    _ => Err(InterpreterError::OperandMismatch),
                }
            },
            _ => Err(InterpreterError::UnknownOperator),
        }
    }

    /// Evaluates an expression in the environment as it stands.
    pub fn visit_expr(&self, expr: &Expr) -> (r: Result<Object, InterpreterError>)
        ensures
            value_view(r) == eval(self@.env, expr@),
        decreases expr,
    {
        match expr {
            Expr::NumLit(n) => Ok(Object::Int(*n)),
            Expr::FloatLit(numeral) => Ok(Object::Float(Rc::new(FloatTerm::Lit(numeral.clone())))),
            Expr::Noop => Ok(Object::Null),
            Expr::Var(var_id) => {
                match self.global_scope.get(var_id.as_str()) {
                    Some(obj) => Ok(obj.clone()),
                    None => Err(InterpreterError::UndefinedVariable),
                }
            },
            Expr::Infix(lhs, token, rhs) => {
                let l = self.visit_expr(lhs)?;
                let r = self.visit_expr(rhs)?;
                Self::visit_infix(&l, token, &r)
            },
            Expr::Prefix(token, rhs) => {
                let r = self.visit_expr(rhs)?;
                Self::visit_prefix(token, &r)
            },
        }
    }

    /// Evaluates `value` and stores it under the variable `target`.
    fn store(&mut self, target: &Expr, value: &Expr) -> (r: Result<Object, InterpreterError>)
        ensures
            final(self)@.parser == old(self)@.parser,
            final(self)@.table == old(self)@.table,
            (final(self)@.env, value_view(r)) == store(old(self)@.env, target@, value@),
    {
        if let Expr::Var(id) = target {
            let v = self.visit_expr(value)?;
            self.global_scope.insert(id.clone(), v);
            assert(self@.env =~= old(self)@.env.insert(id@, v@));
            return Ok(Object::Null);
        }
        Err(InterpreterError::InvalidTarget)
    }

    /// Runs one statement in the environment as it stands.
    pub fn visit_stmt(&mut self, stmt: &Stmt) -> (r: Result<Object, InterpreterError>)
        ensures
            final(self)@.parser == old(self)@.parser,
            final(self)@.table == old(self)@.table,
            (final(self)@.env, value_view(r)) == run_stmt(old(self)@.env, stmt@),
        decreases stmt,
    {
        match stmt {
            Stmt::Expr(expr) => self.visit_expr(expr),
            Stmt::Return(expr) => {
                let v = self.visit_expr(expr)?;
                Ok(Object::Return(Box::new(v)))
            },
            Stmt::Block(stmts) => {
                match self.visit_block_stmt(stmts) {
                    Ok(Object::Return(inner)) => Ok(*inner),
                    other => other,
                }
            },
            Stmt::Let(var, _, expr) => self.store(var, expr),
            Stmt::Assign(var, expr) => self.store(var, expr),
        }
    }

    /// Runs a tree in the environment as it stands. Nothing is checked
    /// first: what the run yields is `run_block` of the environment and the
    /// tree, whatever the tree.
    pub fn visit_block_stmt(&mut self, block: &BlockStmt) -> (r: Result<Object, InterpreterError>)
        ensures
            final(self)@.parser == old(self)@.parser,
            final(self)@.table == old(self)@.table,
            (final(self)@.env, value_view(r)) == run_block(old(self)@.env, block@),
        decreases block,
    {
        let mut res = Object::Null;
        let mut i: usize = 0;
        while i < block.statements.len()
            invariant
                i <= block.statements@.len(),
                self@.parser == old(self)@.parser,
                self@.table == old(self)@.table,
                run_from(self@.env, block@, i as int, res@) == run_block(old(self)@.env, block@),
            decreases block.statements@.len() - i,
        {
            res = match self.visit_stmt(&block.statements[i]) {
                Ok(v) => v,
                Err(e) => {
                    return Err(e);
                },
            };
            if let Object::Return(_) = &res {
                return Ok(res);
            }
            i += 1;
        }
        Ok(res)
    }
}

} // verus!
