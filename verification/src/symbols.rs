//! The static checker: one walk over the tree that infers the type of every
//! expression and holds declarations and assignments to the symbol table.
//!
//! All blocks share one flat table. The functions of the first half of this
//! file say what the walk yields on a table and a tree; the
//! `SymbolTableBuilder` computes exactly that.

use vstd::prelude::*;
use vstd::hash_map::StringHashMap;
use crate::ast::ast::{
    name_of_type, BlockStmt, Expr, ExprView, Stmt, StmtView, Type, TypeView,
};
use crate::token::{Token, TokenView};

verus! {

/// Why a tree was rejected.
#[derive(Debug, Clone, Copy, PartialEq, Eq, Structural)]
pub enum SymbolError {
    /// A name that the table does not hold as what it is used for.
    Undefined,
    /// Two types that had to be equal and are not.
    TypeMismatch,
    /// An assignment to a variable that was not declared mutable.
    Immutable,
}

/// An entry of the symbol table.
#[derive(Debug)]
pub enum Symbol {
    /// The definition of a type.
    Type(Type),
    /// A variable, by name, with its declared type.
    Var(String, Type),
}

/// The model of a [`Symbol`].
pub enum SymbolView {
    Type(TypeView),
    Var(Seq<char>, TypeView),
}

impl View for Symbol {
    type V = SymbolView;

    open spec fn view(&self) -> SymbolView {
        match self {
            Symbol::Type(t) => SymbolView::Type(t@),
            Symbol::Var(name, t) => SymbolView::Var(name@, t@),
        }
    }
}

/// The model of a symbol table: entries by name.
pub type Table = Map<Seq<char>, SymbolView>;

/// The name under which `s` is entered, if it has one.
pub open spec fn symbol_name(s: SymbolView) -> Option<Seq<char>> {
    match s {
        SymbolView::Type(t) => name_of_type(t.t),
        SymbolView::Var(name, _) => Some(name),
    }
}

/// The type that an entry stands for: a type definition for itself, a
/// variable for its declared type.
pub open spec fn symbol_type(s: SymbolView) -> TypeView {
    match s {
        SymbolView::Type(t) => t,
        SymbolView::Var(_, t) => t,
    }
}

/// The definition of the built-in type that `t` names.
pub open spec fn builtin(t: TokenView) -> TypeView {
    TypeView { t, mutable: false }
}

/// The table before any declaration: the built-in types `int`, `float` and
/// `null`.
pub open spec fn builtin_table() -> Table {
    Map::<Seq<char>, SymbolView>::empty().insert(
        "int"@,
        SymbolView::Type(builtin(TokenView::IntType)),
    ).insert("float"@, SymbolView::Type(builtin(TokenView::FloatType))).insert(
        "null"@,
        SymbolView::Type(builtin(TokenView::Null)),
    )
}

/// The type of `e` under `table`, or why it has none.
///
/// A literal has its built-in type and the empty expression the type `null`.
/// A name has the type of its entry. The operands of a binary operation must
/// have equal types, which is then the type of the operation; a unary
/// operation has the type of its operand.
pub open spec fn infer(table: Table, e: ExprView) -> Result<TypeView, SymbolError>
    decreases e,
{
    match e {
        ExprView::NumLit(_) => Ok(builtin(TokenView::IntType)),
        ExprView::FloatLit(_) => Ok(builtin(TokenView::FloatType)),
        ExprView::Noop => Ok(builtin(TokenView::Null)),
        ExprView::Var(name) => {
            if table.contains_key(name) {
                Ok(symbol_type(table[name]))
            } else {
                Err(SymbolError::Undefined)
            }
        },
        ExprView::Infix(l, _, r) => {
            match infer(table, *l) {
                Ok(left) => {
                    match infer(table, *r) {
                        Ok(right) => {
                            if left.t == right.t {
                                Ok(left)
                            } else {
                                Err(SymbolError::TypeMismatch)
                            }
                        },
                        Err(e) => Err(e),
                    }
                },
                Err(e) => Err(e),
            }
        },
        ExprView::Prefix(_, operand) => infer(table, *operand),
    }
}

/// Checks that `e` has a type.
pub open spec fn check_expr(table: Table, e: ExprView) -> Result<(), SymbolError> {
    match infer(table, e) {
        Ok(_) => Ok(()),
        Err(e) => Err(e),
    }
}

/// Checks that `e` has the type that `expected` names.
pub open spec fn check_typed(table: Table, e: ExprView, expected: TypeView) -> Result<
    (),
    SymbolError,
> {
    match infer(table, e) {
        Ok(found) => {
            if found.t == expected.t {
                Ok(())
            } else {
                Err(SymbolError::TypeMismatch)
            }
        },
        Err(e) => Err(e),
    }
}

/// Whether `table` holds a type definition under the name of `t`.
pub open spec fn known_type(table: Table, t: TypeView) -> bool {
    match name_of_type(t.t) {
        Some(name) => table.contains_key(name) && table[name] is Type,
        None => false,
    }
}

/// The declaration `let name: declared = init`.
///
/// The declared type must be known and the initializer must have it. Then
/// the variable is entered with the declared type, in place of any entry
/// of the same name.
pub open spec fn check_declaration(
    table: Table,
    name: Seq<char>,
    declared: TypeView,
    init: ExprView,
) -> (Table, Result<(), SymbolError>) {
    if !known_type(table, declared) {
        (table, Err(SymbolError::Undefined))
    } else {
        match check_typed(table, init, declared) {
            Ok(_) => (table.insert(name, SymbolView::Var(name, declared)), Ok(())),
            Err(e) => (table, Err(e)),
        }
    }
}

/// The assignment `name = value`.
///
/// The name must be that of a variable, the variable must be mutable, and
/// the value must have its declared type. The table stays as it is.
pub open spec fn check_assignment(table: Table, name: Seq<char>, value: ExprView) -> Result<
    (),
    SymbolError,
> {
    if !(table.contains_key(name) && table[name] is Var) {
        Err(SymbolError::Undefined)
    } else if !symbol_type(table[name]).mutable {
        Err(SymbolError::Immutable)
    } else {
        check_typed(table, value, symbol_type(table[name]))
    }
}

/// Checks one statement: the table behind it, and the verdict.
///
/// A declaration or an assignment whose target is no variable is passed
/// over.
pub open spec fn check_stmt(table: Table, s: StmtView) -> (Table, Result<(), SymbolError>)
    decreases s, 0int,
{
    match s {
        StmtView::Expr(e) => (table, check_expr(table, e)),
        StmtView::Return(e) => (table, check_expr(table, e)),
        StmtView::Block(stmts) => check_from(table, stmts, 0),
        StmtView::Let(target, declared, init) => {
            match target {
                ExprView::Var(name) => check_declaration(table, name, declared, init),
                _ => (table, Ok(())),
            }
        },
        StmtView::Assign(target, value) => {
            match target {
                ExprView::Var(name) => (table, check_assignment(table, name, value)),
                _ => (table, Ok(())),
            }
        },
    }
}

/// Checks the statements of `stmts` from the `i`-th on, in order, each on
/// the table that the one before left. The first failure ends the walk.
pub open spec fn check_from(table: Table, stmts: Seq<StmtView>, i: int) -> (
    Table,
    Result<(), SymbolError>,
)
    decreases stmts, stmts.len() - i,
{
    if 0 <= i < stmts.len() {
        let (next, verdict) = check_stmt(table, stmts[i]);
        match verdict {
            Ok(_) => check_from(next, stmts, i + 1),
            Err(e) => (next, Err(e)),
        }
    } else {
        (table, Ok(()))
    }
}

/// Checks a block.
pub open spec fn check_block(table: Table, stmts: Seq<StmtView>) -> (
    Table,
    Result<(), SymbolError>,
) {
    check_from(table, stmts, 0)
}

/// The view of what the inference returns.
pub open spec fn inferred(r: Result<Type, SymbolError>) -> Result<TypeView, SymbolError> {
    match r {
        Ok(t) => Ok(t@),
        Err(e) => Err(e),
    }
}

/// The symbol table: entries by name.
pub struct SymbolTable {
    table: StringHashMap<Symbol>,
}

impl View for SymbolTable {
    type V = Table;

    closed spec fn view(&self) -> Table {
        self.table@.map_values(|s: Symbol| s@)
    }
}

impl SymbolTable {
    /// The table of the built-in types.
    pub fn new() -> (table: Self)
        ensures
            table@ == builtin_table(),
    {
        let mut table = Self { table: StringHashMap::new() };
        assert(table@ =~= Map::<Seq<char>, SymbolView>::empty());
        table.define(Symbol::Type(Type::new(Token::IntType, false)));
        table.define(Symbol::Type(Type::new(Token::FloatType, false)));
        table.define(Symbol::Type(Type::new(Token::Null, false)));
        table
    }

    /// Enters `symbol` under its name, in place of any entry of that name.
    /// A type definition whose token names no type is not entered.
    pub fn define(&mut self, symbol: Symbol)
        ensures
            final(self)@ == match symbol_name(symbol@) {
                Some(name) => old(self)@.insert(name, symbol@),
                None => old(self)@,
            },
    {
        let name = match &symbol {
            Symbol::Type(t) => t.name(),
            Symbol::Var(name, _) => Some(name.clone()),
        };
        match name {
            Some(name) => {
                self.table.insert(name, symbol);
                assert(self@ =~= old(self)@.insert(name@, symbol@));
            },
            None => {},
        }
    }

    /// The entry under `name`, if there is one.
    pub fn lookup(&self, name: &str) -> (r: Option<&Symbol>)
        ensures
            match r {
                Some(s) => self@.contains_key(name@) && self@[name@] == s@,
                None => !self@.contains_key(name@),
            },
    {
        self.table.get(name)
    }
}

/// The checker: a symbol table that grows with each declaration it accepts.
pub struct SymbolTableBuilder {
    symtable: SymbolTable,
}

impl SymbolTableBuilder {
    /// The table as it stands.
    pub closed spec fn table(&self) -> Table {
        self.symtable@
    }

    /// A checker that knows the built-in types.
    pub fn new() -> (builder: Self)
        ensures
            builder.table() == builtin_table(),
    {
        Self { symtable: SymbolTable::new() }
    }

    /// Checks the statements of a block in order, up to the first that fails.
    fn visit_block(&mut self, blk: &BlockStmt) -> (r: Result<(), SymbolError>)
        ensures
            (final(self).table(), r) == check_block(old(self).table(), blk@),
        decreases blk,
    {
        let mut i: usize = 0;
        while i < blk.statements.len()
            invariant
                i <= blk.statements@.len(),
                check_from(self.table(), blk@, i as int) == check_block(old(self).table(), blk@),
            decreases blk.statements@.len() - i,
        {
            self.visit_stmt(&blk.statements[i])?;
            i += 1;
        }
        Ok(())
    }

    /// The type of a binary operation on operands of the types `lhs` and
    /// `rhs`.
    fn visit_infix(lhs: Type, rhs: &Type) -> (r: Result<Type, SymbolError>)
        ensures
            inferred(r) == if lhs@.t == rhs@.t {
                Ok::<TypeView, SymbolError>(lhs@)
            } else {
                Err(SymbolError::TypeMismatch)
            },
    {
        if lhs == *rhs {
            Ok(lhs)
        } else {
            Err(SymbolError::TypeMismatch)
        }
    }

    /// The type of a unary operation on an operand of the type `rhs`.
    fn visit_prefix(rhs: Type) -> (r: Result<Type, SymbolError>)
        ensures
            inferred(r) == Ok::<TypeView, SymbolError>(rhs@),
    {
        Ok(rhs)
    }

    /// Infers the type of an expression.
    fn visit_expr(&self, expr: &Expr) -> (r: Result<Type, SymbolError>)
        ensures
            inferred(r) == infer(self.table(), expr@),
        decreases expr,
    {
        match expr {
            Expr::NumLit(_) => Ok(Type::new(Token::IntType, false)),
            Expr::FloatLit(_) => Ok(Type::new(Token::FloatType, false)),
            Expr::Noop => Ok(Type::new(Token::Null, false)),
            Expr::Var(var_id) => {
                match self.symtable.lookup(var_id.as_str()) {
                    None => Err(SymbolError::Undefined),
                    Some(Symbol::Type(t)) => Ok(t.clone()),
                    Some(Symbol::Var(_, t)) => Ok(t.clone()),
                }
            },
            Expr::Infix(lhs, _, rhs) => {
                let l = self.visit_expr(lhs)?;
                let r = self.visit_expr(rhs)?;
                Self::visit_infix(l, &r)
            },
            Expr::Prefix(_, rhs) => {
                let r = self.visit_expr(rhs)?;
                Self::visit_prefix(r)
            },
        }
    }

    /// Checks that an expression has the type `expected`.
    fn visit_typed(&self, expr: &Expr, expected: &Type) -> (r: Result<(), SymbolError>)
        ensures
            r == check_typed(self.table(), expr@, expected@),
    {
        match self.visit_expr(expr) {
            Ok(found) => {
                if found == *expected {
                    Ok(())
                } else {
                    Err(SymbolError::TypeMismatch)
                }
            },
            Err(e) => Err(e),
        }
    }

    /// Whether the table holds a type definition under the name of `t`.
    fn knows_type(&self, t: &Type) -> (r: bool)
        ensures
            r == known_type(self.table(), t@),
    {
        match t.name() {
            Some(name) => {
                match self.symtable.lookup(name.as_str()) {
                    Some(Symbol::Type(_)) => true,
                    _ => false,
                }
            },
            None => false,
        }
    }

    /// Checks one statement.
    fn visit_stmt(&mut self, statement: &Stmt) -> (r: Result<(), SymbolError>)
        ensures
            (final(self).table(), r) == check_stmt(old(self).table(), statement@),
        decreases statement,
    {
        match statement {
            Stmt::Expr(expr) => {
                self.visit_expr(expr)?;
                Ok(())
            },
            Stmt::Block(blk) => self.visit_block(blk),
            Stmt::Let(lhs, t, rhs) => {
                if let Expr::Var(name) = lhs {
                    if !self.knows_type(t) {
                        return Err(SymbolError::Undefined);
                    }
                    self.visit_typed(rhs, t)?;
                    self.symtable.define(Symbol::Var(name.clone(), t.clone()));
                }
                Ok(())
            },
            Stmt::Return(expr) => {
                self.visit_expr(expr)?;
                Ok(())
            },
            Stmt::Assign(lhs, rhs) => {
                if let Expr::Var(name) = lhs {
                    let declared = match self.symtable.lookup(name.as_str()) {
                        Some(Symbol::Var(_, t)) => t.clone(),
                        _ => {
                            return Err(SymbolError::Undefined);
                        },
                    };
                    if !declared.mutable {
                        return Err(SymbolError::Immutable);
                    }
                    return self.visit_typed(rhs, &declared);
                }
                Ok(())
            },
        }
    }

    /// Checks a whole tree. The result and the table that is left are
    /// `check_block` of the table and the tree: the declarations that were
    /// accepted before a failure stay entered.
    pub fn check(&mut self, ast: &BlockStmt) -> (r: Result<(), SymbolError>)
        ensures
            (final(self).table(), r) == check_block(old(self).table(), ast@),
    {
        self.visit_block(ast)
    }
}

} // verus!
