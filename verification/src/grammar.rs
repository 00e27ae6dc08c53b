//! The grammar, as functions on the text.
//!
//! ```text
//! block      := statement (';' statement)*
//! statement  := '{' block '}'
//!             | 'let' IDENT ':' type '=' expr     declaration
//!             | 'let' IDENT '=' expr              assignment
//!             | 'return' expr
//!             |                                   empty
//! type       := 'mut'? ('int' | 'float' | 'null' | IDENT)
//! expr       := term (('+' | '-') term)*
//! term       := factor (('*' | '/') factor)*
//! factor     := NUMBER | FLOAT | '-' factor | '(' expr ')' | IDENT
//! ```
//!
//! Each rule is a function from a [`Cursor`] to the cursor behind what the
//! rule took and the tree it built, or the cursor at which it failed and the
//! error. A statement that starts with none of `{`, `let` and `return` is the
//! empty statement and takes nothing.
//!
//! The repetitions are defined by recursion on the cursor that a rule left.
//! That this cursor is no further back than the one before is what founds
//! the recursion, so the definitions test it (`not_behind`, `further`); the
//! test never fails (`lemma_parse_expr`, `lemma_parse_block` and their
//! like), and the lemmas whose names end in `_unfolds` state the rules
//! without it.

use vstd::prelude::*;
use crate::ast::ast::{ExprView, StmtView, TypeView};
use crate::errors::ParseErrorView;
use crate::lexer::{lemma_next_token_at, next_token_at};
use crate::token::TokenView;

verus! {

/// Where a parser stands: the lookahead token, and the position of the
/// tokenizer, which is just behind that token.
pub struct Cursor {
    pub pos: int,
    pub tok: TokenView,
}

/// A bound on the work that is left at `c`: it falls whenever a token is
/// consumed. Every recursion of the grammar is founded on it.
pub open spec fn budget(text: Seq<u8>, c: Cursor) -> nat {
    let rest: nat = if 0 <= c.pos <= text.len() {
        (text.len() - c.pos) as nat
    } else {
        0
    };
    if c.tok == TokenView::EOF {
        2 * rest
    } else {
        2 * rest + 1
    }
}

/// The cursor `after` is where `before` was, or further on.
pub open spec fn not_behind(text: Seq<u8>, before: Cursor, after: Cursor) -> bool {
    budget(text, after) <= budget(text, before)
}

/// The cursor `after` is further on than `before`.
pub open spec fn further(text: Seq<u8>, before: Cursor, after: Cursor) -> bool {
    budget(text, after) < budget(text, before)
}

/// Fetches the next token into the lookahead. On a lexical error the
/// lookahead stays, and the tokenizer has passed the fault.
pub open spec fn advance(text: Seq<u8>, c: Cursor) -> (Cursor, Result<(), ParseErrorView>) {
    let (pos, r) = next_token_at(text, c.pos);
    match r {
        Ok(t) => (Cursor { pos, tok: t }, Ok(())),
        Err(e) => (Cursor { pos, tok: c.tok }, Err(e)),
    }
}

/// Consumes the lookahead if it is `expected`. At the end of the text the
/// failure is `WaitForInput`; on another token, `WrongToken` with both.
pub open spec fn eat(text: Seq<u8>, c: Cursor, expected: TokenView) -> (
    Cursor,
    Result<(), ParseErrorView>,
) {
    if c.tok == TokenView::EOF && expected != TokenView::EOF {
        (c, Err(ParseErrorView::WaitForInput))
    } else if c.tok != expected {
        (c, Err(ParseErrorView::WrongToken(c.pos, expected, c.tok)))
    } else {
        advance(text, c)
    }
}

/// The failure of a parser that found no token it can start with.
pub open spec fn unexpected(c: Cursor) -> ParseErrorView {
    if c.tok == TokenView::EOF {
        ParseErrorView::WaitForInput
    } else {
        ParseErrorView::UnexpectedToken(c.pos, c.tok)
    }
}

/// `IDENT`
pub open spec fn parse_variable(text: Seq<u8>, c: Cursor) -> (
    Cursor,
    Result<ExprView, ParseErrorView>,
) {
    match c.tok {
        TokenView::ID(name) => {
            let (c1, r) = advance(text, c);
            match r {
                Ok(_) => (c1, Ok(ExprView::Var(name))),
                Err(e) => (c1, Err(e)),
            }
        },
        _ => (c, Err(unexpected(c))),
    }
}

/// `factor := NUMBER | FLOAT | '-' factor | '(' expr ')' | IDENT`
pub open spec fn parse_factor(text: Seq<u8>, c: Cursor) -> (
    Cursor,
    Result<ExprView, ParseErrorView>,
)
    decreases budget(text, c), 0int,
{
    match c.tok {
        TokenView::Number(n) => {
            let (c1, r) = advance(text, c);
            match r {
                Ok(_) => (c1, Ok(ExprView::NumLit(n))),
                Err(e) => (c1, Err(e)),
            }
        },
        TokenView::Float(numeral) => {
            let (c1, r) = advance(text, c);
            match r {
                Ok(_) => (c1, Ok(ExprView::FloatLit(numeral))),
                Err(e) => (c1, Err(e)),
            }
        },
        TokenView::Minus => {
            let (c1, r) = advance(text, c);
            match r {
                Ok(_) => {
                    proof {
                        lemma_advance(text, c);
                    }
                    let (c2, operand) = parse_factor(text, c1);
                    match operand {
                        Ok(e) => (c2, Ok(ExprView::Prefix(TokenView::Minus, Box::new(e)))),
                        Err(e) => (c2, Err(e)),
                    }
                },
                Err(e) => (c1, Err(e)),
            }
        },
        TokenView::LeftParen => {
            let (c1, r) = advance(text, c);
            match r {
                Ok(_) => {
                    proof {
                        lemma_advance(text, c);
                    }
                    let (c2, inner) = parse_expr(text, c1);
                    match inner {
                        Ok(e) => {
                            let (c3, close) = eat(text, c2, TokenView::RightParen);
                            match close {
                                Ok(_) => (c3, Ok(e)),
                                Err(e) => (c3, Err(e)),
                            }
                        },
                        Err(e) => (c2, Err(e)),
                    }
                },
                Err(e) => (c1, Err(e)),
            }
        },
        _ => parse_variable(text, c),
    }
}

/// Whether `t` is `*` or `/`.
pub open spec fn is_term_op(t: TokenView) -> bool {
    t == TokenView::Multiply || t == TokenView::Divide
}

/// Whether `t` is `+` or `-`.
pub open spec fn is_expr_op(t: TokenView) -> bool {
    t == TokenView::Plus || t == TokenView::Minus
}

/// `(('*' | '/') factor)*` behind the term `left`: each operator takes what
/// stands to its left as its left operand.
pub open spec fn parse_term_rest(text: Seq<u8>, c: Cursor, left: ExprView) -> (
    Cursor,
    Result<ExprView, ParseErrorView>,
)
    decreases budget(text, c), 1int,
{
    if is_term_op(c.tok) {
        let (c1, r) = advance(text, c);
        match r {
            Ok(_) => {
                proof {
                    lemma_advance(text, c);
                }
                let (c2, right) = parse_factor(text, c1);
                match right {
                    Ok(e) => {
                        if further(text, c, c2) {
                            parse_term_rest(
                                text,
                                c2,
                                ExprView::Infix(Box::new(left), c.tok, Box::new(e)),
                            )
                        } else {
                            (c2, Err(ParseErrorView::InternalError))
                        }
                    },
                    Err(e) => (c2, Err(e)),
                }
            },
            Err(e) => (c1, Err(e)),
        }
    } else {
        (c, Ok(left))
    }
}

/// `term := factor (('*' | '/') factor)*`
pub open spec fn parse_term(text: Seq<u8>, c: Cursor) -> (Cursor, Result<ExprView, ParseErrorView>)
    decreases budget(text, c), 2int,
{
    let (c1, first) = parse_factor(text, c);
    match first {
        Ok(e) => {
            if not_behind(text, c, c1) {
                parse_term_rest(text, c1, e)
            } else {
                (c1, Err(ParseErrorView::InternalError))
            }
        },
        Err(e) => (c1, Err(e)),
    }
}

/// `(('+' | '-') term)*` behind the expression `left`.
pub open spec fn parse_expr_rest(text: Seq<u8>, c: Cursor, left: ExprView) -> (
    Cursor,
    Result<ExprView, ParseErrorView>,
)
    decreases budget(text, c), 3int,
{
    if is_expr_op(c.tok) {
        let (c1, r) = advance(text, c);
        match r {
            Ok(_) => {
                proof {
                    lemma_advance(text, c);
                }
                let (c2, right) = parse_term(text, c1);
                match right {
                    Ok(e) => {
                        if further(text, c, c2) {
                            parse_expr_rest(
                                text,
                                c2,
                                ExprView::Infix(Box::new(left), c.tok, Box::new(e)),
                            )
                        } else {
                            (c2, Err(ParseErrorView::InternalError))
                        }
                    },
                    Err(e) => (c2, Err(e)),
                }
            },
            Err(e) => (c1, Err(e)),
        }
    } else {
        (c, Ok(left))
    }
}

/// `expr := term (('+' | '-') term)*`
pub open spec fn parse_expr(text: Seq<u8>, c: Cursor) -> (Cursor, Result<ExprView, ParseErrorView>)
    decreases budget(text, c), 4int,
{
    let (c1, first) = parse_term(text, c);
    match first {
        Ok(e) => {
            if not_behind(text, c, c1) {
                parse_expr_rest(text, c1, e)
            } else {
                (c1, Err(ParseErrorView::InternalError))
            }
        },
        Err(e) => (c1, Err(e)),
    }
}

/// Whether `t` can name a type.
pub open spec fn names_type(t: TokenView) -> bool {
    t == TokenView::IntType || t == TokenView::FloatType || t == TokenView::Null || t is ID
}

/// `type := 'mut'? ('int' | 'float' | 'null' | IDENT)`
pub open spec fn parse_type(text: Seq<u8>, c: Cursor) -> (
    Cursor,
    Result<TypeView, ParseErrorView>,
) {
    if c.tok == TokenView::Mutable {
        let (c1, r) = advance(text, c);
        match r {
            Ok(_) => parse_type_name(text, c1, true),
            Err(e) => (c1, Err(e)),
        }
    } else {
        parse_type_name(text, c, false)
    }
}

/// `'int' | 'float' | 'null' | IDENT`
pub open spec fn parse_type_name(text: Seq<u8>, c: Cursor, mutable: bool) -> (
    Cursor,
    Result<TypeView, ParseErrorView>,
) {
    if names_type(c.tok) {
        let (c1, r) = advance(text, c);
        match r {
            Ok(_) => (c1, Ok(TypeView { t: c.tok, mutable })),
            Err(e) => (c1, Err(e)),
        }
    } else {
        (c, Err(unexpected(c)))
    }
}

/// `'=' expr`
pub open spec fn parse_value(text: Seq<u8>, c: Cursor) -> (
    Cursor,
    Result<ExprView, ParseErrorView>,
) {
    let (c1, r) = eat(text, c, TokenView::Equal);
    match r {
        Ok(_) => parse_expr(text, c1),
        Err(e) => (c1, Err(e)),
    }
}

/// `'let' IDENT ':' type '=' expr`, a declaration, or `'let' IDENT '=' expr`,
/// an assignment.
pub open spec fn parse_let(text: Seq<u8>, c: Cursor) -> (Cursor, Result<StmtView, ParseErrorView>) {
    let (c1, r) = eat(text, c, TokenView::Let);
    match r {
        Ok(_) => {
            let (c2, target) = parse_variable(text, c1);
            match target {
                Ok(x) => {
                    if c2.tok == TokenView::Colon {
                        let (c3, colon) = advance(text, c2);
                        match colon {
                            Ok(_) => {
                                let (c4, declared) = parse_type(text, c3);
                                match declared {
                                    Ok(t) => {
                                        let (c5, init) = parse_value(text, c4);
                                        match init {
                                            Ok(e) => (c5, Ok(StmtView::Let(x, t, e))),
                                            Err(e) => (c5, Err(e)),
                                        }
                                    },
                                    Err(e) => (c4, Err(e)),
                                }
                            },
                            Err(e) => (c3, Err(e)),
                        }
                    } else {
                        let (c3, value) = parse_value(text, c2);
                        match value {
                            Ok(e) => (c3, Ok(StmtView::Assign(x, e))),
                            Err(e) => (c3, Err(e)),
                        }
                    }
                },
                Err(e) => (c2, Err(e)),
            }
        },
        Err(e) => (c1, Err(e)),
    }
}

/// `'return' expr`
pub open spec fn parse_return(text: Seq<u8>, c: Cursor) -> (
    Cursor,
    Result<StmtView, ParseErrorView>,
) {
    let (c1, r) = eat(text, c, TokenView::Ret);
    match r {
        Ok(_) => {
            let (c2, value) = parse_expr(text, c1);
            match value {
                Ok(e) => (c2, Ok(StmtView::Return(e))),
                Err(e) => (c2, Err(e)),
            }
        },
        Err(e) => (c1, Err(e)),
    }
}

/// `statement := '{' block '}' | let | return | empty`
pub open spec fn parse_statement(text: Seq<u8>, c: Cursor) -> (
    Cursor,
    Result<StmtView, ParseErrorView>,
)
    decreases budget(text, c), 0int,
{
    match c.tok {
        TokenView::LeftCurly => {
            let (c1, r) = advance(text, c);
            match r {
                Ok(_) => {
                    proof {
                        lemma_advance(text, c);
                    }
                    let (c2, inner) = parse_block(text, c1);
                    match inner {
                        Ok(b) => {
                            let (c3, close) = eat(text, c2, TokenView::RightCurly);
                            match close {
                                Ok(_) => (c3, Ok(StmtView::Block(b))),
                                Err(e) => (c3, Err(e)),
                            }
                        },
                        Err(e) => (c2, Err(e)),
                    }
                },
                Err(e) => (c1, Err(e)),
            }
        },
        TokenView::Let => parse_let(text, c),
        TokenView::Ret => parse_return(text, c),
        _ => (c, Ok(StmtView::Expr(ExprView::Noop))),
    }
}

/// `(';' statement)*` behind the statements `done`.
pub open spec fn parse_block_rest(text: Seq<u8>, c: Cursor, done: Seq<StmtView>) -> (
    Cursor,
    Result<Seq<StmtView>, ParseErrorView>,
)
    decreases budget(text, c), 1int,
{
    if c.tok == TokenView::Semicolon {
        let (c1, r) = advance(text, c);
        match r {
            Ok(_) => {
                proof {
                    lemma_advance(text, c);
                }
                let (c2, next) = parse_statement(text, c1);
                match next {
                    Ok(s) => {
                        if further(text, c, c2) {
                            parse_block_rest(text, c2, done.push(s))
                        } else {
                            (c2, Err(ParseErrorView::InternalError))
                        }
                    },
                    Err(e) => (c2, Err(e)),
                }
            },
            Err(e) => (c1, Err(e)),
        }
    } else {
        (c, Ok(done))
    }
}

/// `block := statement (';' statement)*`; an identifier behind the last
/// statement is refused as unexpected.
pub open spec fn parse_block(text: Seq<u8>, c: Cursor) -> (
    Cursor,
    Result<Seq<StmtView>, ParseErrorView>,
)
    decreases budget(text, c), 2int,
{
    let (c1, first) = parse_statement(text, c);
    match first {
        Ok(s) => {
            if not_behind(text, c, c1) {
                let (c2, all) = parse_block_rest(text, c1, seq![s]);
                match all {
                    Ok(stmts) => {
                        if c2.tok is ID {
                            (c2, Err(ParseErrorView::UnexpectedToken(c2.pos, c2.tok)))
                        } else {
                            (c2, Ok(stmts))
                        }
                    },
                    Err(e) => (c2, Err(e)),
                }
            } else {
                (c1, Err(ParseErrorView::InternalError))
            }
        },
        Err(e) => (c1, Err(e)),
    }
}

/// A whole unit: a block, and behind it the end of the text. A fault that
/// was met when the text was fed is reported before anything is parsed.
pub open spec fn parse_program(text: Seq<u8>, c: Cursor, fault: Option<ParseErrorView>) -> (
    Cursor,
    Result<Seq<StmtView>, ParseErrorView>,
) {
    match fault {
        Some(e) => (c, Err(e)),
        None => {
            let (c1, r) = parse_block(text, c);
            match r {
                Ok(stmts) => {
                    if c1.tok != TokenView::EOF {
                        (c1, Err(ParseErrorView::WrongToken(c1.pos, TokenView::EOF, c1.tok)))
                    } else {
                        (c1, Ok(stmts))
                    }
                },
                Err(e) => (c1, Err(e)),
            }
        },
    }
}

/// Fetching a token never moves backwards, and moves on from every token but
/// the end of the text.
pub proof fn lemma_advance(text: Seq<u8>, c: Cursor)
    ensures
        not_behind(text, c, advance(text, c).0),
        c.tok != TokenView::EOF ==> further(text, c, advance(text, c).0),
{
    lemma_next_token_at(text, c.pos);
}

/// Eating a token never moves backwards, and moves on where it succeeds.
pub proof fn lemma_eat(text: Seq<u8>, c: Cursor, expected: TokenView)
    ensures
        not_behind(text, c, eat(text, c, expected).0),
        eat(text, c, expected).1 is Ok && expected != TokenView::EOF ==> further(
            text,
            c,
            eat(text, c, expected).0,
        ),
{
    lemma_advance(text, c);
}

/// `parse_variable` never moves backwards.
pub proof fn lemma_parse_variable(text: Seq<u8>, c: Cursor)
    ensures
        not_behind(text, c, parse_variable(text, c).0),
{
    lemma_advance(text, c);
}

/// `parse_factor` never moves backwards.
pub proof fn lemma_parse_factor(text: Seq<u8>, c: Cursor)
    ensures
        not_behind(text, c, parse_factor(text, c).0),
    decreases budget(text, c), 0int,
{
    lemma_advance(text, c);
    lemma_parse_variable(text, c);
    let c1 = advance(text, c).0;
    if c.tok == TokenView::Minus && advance(text, c).1 is Ok {
        lemma_parse_factor(text, c1);
    }
    if c.tok == TokenView::LeftParen && advance(text, c).1 is Ok {
        lemma_parse_expr(text, c1);
        lemma_eat(text, parse_expr(text, c1).0, TokenView::RightParen);
    }
}

/// `parse_term_rest` never moves backwards.
pub proof fn lemma_parse_term_rest(text: Seq<u8>, c: Cursor, left: ExprView)
    ensures
        not_behind(text, c, parse_term_rest(text, c, left).0),
    decreases budget(text, c), 1int,
{
    if is_term_op(c.tok) {
        lemma_advance(text, c);
        let (c1, r) = advance(text, c);
        if r is Ok {
            lemma_parse_factor(text, c1);
            let (c2, right) = parse_factor(text, c1);
            if right is Ok {
                lemma_parse_term_rest(
                    text,
                    c2,
                    ExprView::Infix(Box::new(left), c.tok, Box::new(right->Ok_0)),
                );
            }
        }
    }
}

/// `parse_term` never moves backwards.
pub proof fn lemma_parse_term(text: Seq<u8>, c: Cursor)
    ensures
        not_behind(text, c, parse_term(text, c).0),
    decreases budget(text, c), 2int,
{
    lemma_parse_factor(text, c);
    let (c1, first) = parse_factor(text, c);
    if first is Ok {
        lemma_parse_term_rest(text, c1, first->Ok_0);
    }
}

/// `parse_expr_rest` never moves backwards.
pub proof fn lemma_parse_expr_rest(text: Seq<u8>, c: Cursor, left: ExprView)
    ensures
        not_behind(text, c, parse_expr_rest(text, c, left).0),
    decreases budget(text, c), 3int,
{
    if is_expr_op(c.tok) {
        lemma_advance(text, c);
        let (c1, r) = advance(text, c);
        if r is Ok {
            lemma_parse_term(text, c1);
            let (c2, right) = parse_term(text, c1);
            if right is Ok {
                lemma_parse_expr_rest(
                    text,
                    c2,
                    ExprView::Infix(Box::new(left), c.tok, Box::new(right->Ok_0)),
                );
            }
        }
    }
}

/// `parse_expr` never moves backwards.
pub proof fn lemma_parse_expr(text: Seq<u8>, c: Cursor)
    ensures
        not_behind(text, c, parse_expr(text, c).0),
    decreases budget(text, c), 4int,
{
    lemma_parse_term(text, c);
    let (c1, first) = parse_term(text, c);
    if first is Ok {
        lemma_parse_expr_rest(text, c1, first->Ok_0);
    }
}

/// `parse_type` never moves backwards.
pub proof fn lemma_parse_type(text: Seq<u8>, c: Cursor)
    ensures
        not_behind(text, c, parse_type(text, c).0),
{
    lemma_advance(text, c);
    lemma_advance(text, advance(text, c).0);
}

/// `parse_value` never moves backwards.
pub proof fn lemma_parse_value(text: Seq<u8>, c: Cursor)
    ensures
        not_behind(text, c, parse_value(text, c).0),
{
    lemma_eat(text, c, TokenView::Equal);
    lemma_parse_expr(text, eat(text, c, TokenView::Equal).0);
}

/// `parse_let` never moves backwards.
pub proof fn lemma_parse_let(text: Seq<u8>, c: Cursor)
    ensures
        not_behind(text, c, parse_let(text, c).0),
{
    lemma_eat(text, c, TokenView::Let);
    let c1 = eat(text, c, TokenView::Let).0;
    lemma_parse_variable(text, c1);
    let c2 = parse_variable(text, c1).0;
    lemma_advance(text, c2);
    let c3 = advance(text, c2).0;
    lemma_parse_type(text, c3);
    lemma_parse_value(text, parse_type(text, c3).0);
    lemma_parse_value(text, c2);
}

/// `parse_return` never moves backwards.
pub proof fn lemma_parse_return(text: Seq<u8>, c: Cursor)
    ensures
        not_behind(text, c, parse_return(text, c).0),
{
    lemma_eat(text, c, TokenView::Ret);
    lemma_parse_expr(text, eat(text, c, TokenView::Ret).0);
}

/// `parse_statement` never moves backwards.
pub proof fn lemma_parse_statement(text: Seq<u8>, c: Cursor)
    ensures
        not_behind(text, c, parse_statement(text, c).0),
    decreases budget(text, c), 0int,
{
    lemma_parse_let(text, c);
    lemma_parse_return(text, c);
    if c.tok == TokenView::LeftCurly {
        lemma_advance(text, c);
        let (c1, r) = advance(text, c);
        if r is Ok {
            lemma_parse_block(text, c1);
            lemma_eat(text, parse_block(text, c1).0, TokenView::RightCurly);
        }
    }
}

/// `parse_block_rest` never moves backwards.
pub proof fn lemma_parse_block_rest(text: Seq<u8>, c: Cursor, done: Seq<StmtView>)
    ensures
        not_behind(text, c, parse_block_rest(text, c, done).0),
    decreases budget(text, c), 1int,
{
    if c.tok == TokenView::Semicolon {
        lemma_advance(text, c);
        let (c1, r) = advance(text, c);
        if r is Ok {
            lemma_parse_statement(text, c1);
            let (c2, next) = parse_statement(text, c1);
            if next is Ok {
                lemma_parse_block_rest(text, c2, done.push(next->Ok_0));
            }
        }
    }
}

/// `parse_block` never moves backwards.
pub proof fn lemma_parse_block(text: Seq<u8>, c: Cursor)
    ensures
        not_behind(text, c, parse_block(text, c).0),
    decreases budget(text, c), 2int,
{
    lemma_parse_statement(text, c);
    let (c1, first) = parse_statement(text, c);
    if first is Ok {
        lemma_parse_block_rest(text, c1, seq![first->Ok_0]);
    }
}

/// A term is a factor and what follows it.
pub proof fn lemma_term_unfolds(text: Seq<u8>, c: Cursor)
    ensures
        parse_term(text, c) == match parse_factor(text, c) {
            (c1, Ok(e)) => parse_term_rest(text, c1, e),
            (c1, Err(e)) => (c1, Err(e)),
        },
{
    lemma_parse_factor(text, c);
}

/// Behind a term, `*` or `/` and a factor make a new term of what stands
/// to their left, and the repetition goes on behind them.
pub proof fn lemma_term_rest_unfolds(text: Seq<u8>, c: Cursor, left: ExprView)
    ensures
        parse_term_rest(text, c, left) == if is_term_op(c.tok) {
            match advance(text, c) {
                (c1, Ok(_)) => match parse_factor(text, c1) {
                    (c2, Ok(right)) => parse_term_rest(
                        text,
                        c2,
                        ExprView::Infix(Box::new(left), c.tok, Box::new(right)),
                    ),
                    (c2, Err(e)) => (c2, Err(e)),
                },
                (c1, Err(e)) => (c1, Err(e)),
            }
        } else {
            (c, Ok(left))
        },
{
    lemma_advance(text, c);
    lemma_parse_factor(text, advance(text, c).0);
}

/// An expression is a term and what follows it.
pub proof fn lemma_expr_unfolds(text: Seq<u8>, c: Cursor)
    ensures
        parse_expr(text, c) == match parse_term(text, c) {
            (c1, Ok(e)) => parse_expr_rest(text, c1, e),
            (c1, Err(e)) => (c1, Err(e)),
        },
{
    lemma_parse_term(text, c);
}

/// Behind an expression, `+` or `-` and a term make a new expression of
/// what stands to their left, and the repetition goes on behind them.
pub proof fn lemma_expr_rest_unfolds(text: Seq<u8>, c: Cursor, left: ExprView)
    ensures
        parse_expr_rest(text, c, left) == if is_expr_op(c.tok) {
            match advance(text, c) {
                (c1, Ok(_)) => match parse_term(text, c1) {
                    (c2, Ok(right)) => parse_expr_rest(
                        text,
                        c2,
                        ExprView::Infix(Box::new(left), c.tok, Box::new(right)),
                    ),
                    (c2, Err(e)) => (c2, Err(e)),
                },
                (c1, Err(e)) => (c1, Err(e)),
            }
        } else {
            (c, Ok(left))
        },
{
    lemma_advance(text, c);
    lemma_parse_term(text, advance(text, c).0);
}

/// A block is a statement and what follows it; an identifier behind the
/// last statement is refused.
pub proof fn lemma_block_unfolds(text: Seq<u8>, c: Cursor)
    ensures
        parse_block(text, c) == match parse_statement(text, c) {
            (c1, Ok(s)) => match parse_block_rest(text, c1, seq![s]) {
                (c2, Ok(stmts)) => if c2.tok is ID {
                    (c2, Err(ParseErrorView::UnexpectedToken(c2.pos, c2.tok)))
                } else {
                    (c2, Ok(stmts))
                },
                (c2, Err(e)) => (c2, Err(e)),
            },
            (c1, Err(e)) => (c1, Err(e)),
        },
{
    lemma_parse_statement(text, c);
}

/// Behind a statement, `;` and a statement add to the block, and the
/// repetition goes on behind them.
pub proof fn lemma_block_rest_unfolds(text: Seq<u8>, c: Cursor, done: Seq<StmtView>)
    ensures
        parse_block_rest(text, c, done) == if c.tok == TokenView::Semicolon {
            match advance(text, c) {
                (c1, Ok(_)) => match parse_statement(text, c1) {
                    (c2, Ok(s)) => parse_block_rest(text, c2, done.push(s)),
                    (c2, Err(e)) => (c2, Err(e)),
                },
                (c1, Err(e)) => (c1, Err(e)),
            }
        } else {
            (c, Ok(done))
        },
{
    lemma_advance(text, c);
    lemma_parse_statement(text, advance(text, c).0);
}

} // verus!
