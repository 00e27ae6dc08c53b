//! Expressions, statements and type annotations, each with its model.

use vstd::prelude::*;
use crate::token::{Token, TokenView};

verus! {

/// An expression.
#[derive(Debug, PartialEq)]
pub enum Expr {
    /// An integer literal.
    NumLit(i64),
    /// A floating-point literal, by the text of its numeral.
    FloatLit(String),
    /// A binary operation: left operand, operator, right operand.
    Infix(Box<Expr>, Token, Box<Expr>),
    /// A unary operation: operator, operand.
    Prefix(Token, Box<Expr>),
    /// A variable, by name.
    Var(String),
    /// The empty expression.
    Noop,
}

/// The model of an [`Expr`].
pub enum ExprView {
    NumLit(i64),
    FloatLit(Seq<char>),
    Infix(Box<ExprView>, TokenView, Box<ExprView>),
    Prefix(TokenView, Box<ExprView>),
    Var(Seq<char>),
    Noop,
}

/// The model of `e`.
pub open spec fn expr_view(e: Expr) -> ExprView
    decreases e,
{
    match e {
        Expr::NumLit(n) => ExprView::NumLit(n),
        Expr::FloatLit(s) => ExprView::FloatLit(s@),
        Expr::Infix(l, op, r) => ExprView::Infix(
            Box::new(expr_view(*l)),
            op@,
            Box::new(expr_view(*r)),
        ),
        Expr::Prefix(op, operand) => ExprView::Prefix(op@, Box::new(expr_view(*operand))),
        Expr::Var(name) => ExprView::Var(name@),
        Expr::Noop => ExprView::Noop,
    }
}

impl View for Expr {
    type V = ExprView;

    open spec fn view(&self) -> ExprView {
        expr_view(*self)
    }
}

impl Clone for Expr {
    fn clone(&self) -> (res: Expr)
        ensures
            res == *self,
        decreases self,
    {
        match self {
            Expr::NumLit(n) => Expr::NumLit(*n),
            Expr::FloatLit(s) => Expr::FloatLit(s.clone()),
            Expr::Infix(l, op, r) => Expr::Infix(
                Box::new((&**l).clone()),
                op.clone(),
                Box::new((&**r).clone()),
            ),
            Expr::Prefix(op, e) => Expr::Prefix(op.clone(), Box::new((&**e).clone())),
            Expr::Var(name) => Expr::Var(name.clone()),
            Expr::Noop => Expr::Noop,
        }
    }
}

/// A type annotation: the token that names the type, and whether a variable
/// of it may be assigned again.
#[derive(Debug)]
pub struct Type {
    pub t: Token,
    pub mutable: bool,
}

/// The model of a [`Type`].
pub struct TypeView {
    pub t: TokenView,
    pub mutable: bool,
}

impl View for Type {
    type V = TypeView;

    open spec fn view(&self) -> TypeView {
        TypeView { t: self.t@, mutable: self.mutable }
    }
}

impl Clone for Type {
    fn clone(&self) -> (res: Type)
        ensures
            res == *self,
    {
        Type { t: self.t.clone(), mutable: self.mutable }
    }
}

/// Two types are equal when the same token names them: whether they are
/// mutable plays no part.
impl PartialEq for Type {
    fn eq(&self, other: &Type) -> (r: bool) {
        self.t == other.t
    }
}

impl vstd::std_specs::cmp::PartialEqSpecImpl for Type {
    open spec fn obeys_eq_spec() -> bool {
        true
    }

    open spec fn eq_spec(&self, other: &Type) -> bool {
        self@.t == other@.t
    }
}

/// The name under which the type that `t` names is looked up, if `t` names a
/// type at all.
pub open spec fn name_of_type(t: TokenView) -> Option<Seq<char>> {
    match t {
        TokenView::IntType => Some("int"@),
        TokenView::FloatType => Some("float"@),
        TokenView::Null => Some("null"@),
        TokenView::ID(name) => Some(name),
        _ => None,
    }
}

impl Type {
    /// The type that `t` names, mutable or not.
    pub fn new(t: Token, mutable: bool) -> (ty: Self)
        ensures
            ty.t == t,
            ty.mutable == mutable,
    {
        Self { t, mutable }
    }

    /// The name of the type, where its token names one.
    pub fn name(&self) -> (r: Option<String>)
        ensures
            match r {
                Some(s) => name_of_type(self@.t) == Some(s@),
                None => name_of_type(self@.t) is None,
            },
    {
        match &self.t {
            Token::IntType => Some("int".to_string()),
            Token::FloatType => Some("float".to_string()),
            Token::Null => Some("null".to_string()),
            Token::ID(name) => Some(name.clone()),
            _ => None,
        }
    }
}

/// A statement.
#[derive(Debug, PartialEq)]
pub enum Stmt {
    /// A bare expression.
    Expr(Expr),
    /// A nested block.
    Block(BlockStmt),
    /// A declaration: target, declared type, initializer.
    Let(Expr, Type, Expr),
    /// An assignment: target, new value.
    Assign(Expr, Expr),
    /// An early return.
    Return(Expr),
}

/// A sequence of statements.
#[derive(Debug, PartialEq)]
pub struct BlockStmt {
    pub statements: Vec<Stmt>,
}

/// The model of a [`Stmt`]; a block is the sequence of its statements.
pub enum StmtView {
    Expr(ExprView),
    Block(Seq<StmtView>),
    Let(ExprView, TypeView, ExprView),
    Assign(ExprView, ExprView),
    Return(ExprView),
}

/// The model of `s`.
pub open spec fn stmt_view(s: Stmt) -> StmtView
    decreases s,
{
    match s {
        Stmt::Expr(e) => StmtView::Expr(e@),
        Stmt::Block(b) => StmtView::Block(statements_view(b.statements@)),
        Stmt::Let(x, t, e) => StmtView::Let(x@, t@, e@),
        Stmt::Assign(x, e) => StmtView::Assign(x@, e@),
        Stmt::Return(e) => StmtView::Return(e@),
    }
}

/// The models of the statements of `v`, in order.
pub open spec fn statements_view(v: Seq<Stmt>) -> Seq<StmtView>
    decreases v,
{
    Seq::new(
        v.len(),
        |i: int|
            if 0 <= i < v.len() {
                stmt_view(v[i])
            } else {
                StmtView::Expr(ExprView::Noop)
            },
    )
}

impl View for Stmt {
    type V = StmtView;

    open spec fn view(&self) -> StmtView {
        stmt_view(*self)
    }
}

impl View for BlockStmt {
    type V = Seq<StmtView>;

    open spec fn view(&self) -> Seq<StmtView> {
        statements_view(self.statements@)
    }
}

impl BlockStmt {
    /// A block without statements.
    pub fn new() -> (block: Self)
        ensures
            block@ == Seq::<StmtView>::empty(),
    {
        let block = Self { statements: Vec::new() };
        assert(block@ =~= Seq::<StmtView>::empty());
        block
    }
}

} // verus!
