//! The parser: recursive descent over the tokens of the tokenizer, with one
//! token of lookahead. What it computes is the grammar of [`crate::grammar`].

use vstd::prelude::*;
use crate::ast::ast::{
    statements_view, BlockStmt, Expr, ExprView, Stmt, StmtView, Type,
};
use crate::errors::{ParseError, ParseErrorView};
use crate::grammar::{
    advance, budget, eat, lemma_advance, lemma_parse_factor, lemma_parse_statement,
    lemma_parse_term, not_behind, parse_block, parse_block_rest, parse_expr, parse_expr_rest,
    parse_factor, parse_let, parse_program, parse_return, parse_statement, parse_term,
    parse_term_rest, parse_type, parse_type_name, parse_value, parse_variable, unexpected, Cursor,
};
use crate::lexer::{next_token_at, Lexer};
use crate::token::{Token, TokenView};

verus! {

/// The view of what a parsing function returns.
pub open spec fn parsed<T: View>(r: Result<T, ParseError>) -> Result<T::V, ParseErrorView> {
    match r {
        Ok(v) => Ok(v@),
        Err(e) => Err(e@),
    }
}

/// The parser: a tokenizer, one token of lookahead, and the fault, if any,
/// that the tokenizer met when the lookahead was first fetched.
pub struct Parser {
    lexer: Lexer,
    current_token: Token,
    fault: Option<ParseError>,
}

/// The model of a [`Parser`].
pub struct ParserView {
    /// The text that the tokenizer holds.
    pub text: Seq<u8>,
    /// The lookahead and the position of the tokenizer.
    pub cursor: Cursor,
    /// The fault that was met when the text was fed, if any.
    pub fault: Option<ParseErrorView>,
}

impl View for Parser {
    type V = ParserView;

    closed spec fn view(&self) -> ParserView {
        ParserView {
            text: self.lexer.text@,
            cursor: Cursor { pos: self.lexer.pos as int, tok: self.current_token@ },
            fault: match self.fault {
                Some(e) => Some(e@),
                None => None,
            },
        }
    }
}

/// The parser after `line` was fed to it: the text is replaced or extended by
/// the UTF-8 bytes of the line, and the first token behind the position is
/// fetched. If that token is faulty, the fault is kept and the lookahead is
/// `EOF`.
pub open spec fn feed(p: ParserView, line: Seq<char>, append: bool) -> ParserView {
    let text = if append {
        p.text + vstd::utf8::encode_utf8(line)
    } else {
        vstd::utf8::encode_utf8(line)
    };
    let start = if append {
        p.cursor.pos
    } else {
        0
    };
    let (pos, first) = next_token_at(text, start);
    match first {
        Ok(t) => ParserView { text, cursor: Cursor { pos, tok: t }, fault: None },
        Err(e) => ParserView { text, cursor: Cursor { pos, tok: TokenView::EOF }, fault: Some(e) },
    }
}

impl Parser {
    /// The text that the tokenizer holds.
    pub open spec fn text(&self) -> Seq<u8> {
        self@.text
    }

    /// The lookahead and the position of the tokenizer.
    pub open spec fn cursor(&self) -> Cursor {
        self@.cursor
    }

    /// The fault that was met when the text was fed, if any.
    pub open spec fn fault(&self) -> Option<ParseErrorView> {
        self@.fault
    }

    /// A parser on `lexer`; its lookahead is `EOF` until text is fed.
    pub fn new(lexer: Lexer) -> (parser: Self)
        ensures
            parser.text() == lexer.text@,
            parser.cursor() == (Cursor { pos: lexer.pos as int, tok: TokenView::EOF }),
            parser.fault() is None,
    {
        Self { lexer, current_token: Token::EOF, fault: None }
    }

    /// Feeds text to the tokenizer and fetches the first token behind its
    /// position. If that token is faulty, the fault is kept for `parse` to
    /// report, and the lookahead is `EOF`.
    pub fn feed_next_line(&mut self, text: String, append: bool)
        ensures
            final(self)@ == feed(old(self)@, text@, append),
    {
        self.lexer.feed_next_line(text, append);
        match self.lexer.next_token() {
            Ok(t) => {
                self.current_token = t;
                self.fault = None;
            },
            Err(e) => {
                self.current_token = Token::EOF;
                self.fault = Some(e);
            },
        }
    }

    /// Fetches the next token into the lookahead.
    fn advance(&mut self) -> (r: Result<(), ParseError>)
        ensures
            final(self).text() == old(self).text(),
            final(self).fault() == old(self).fault(),
            (final(self).cursor(), parsed(r)) == advance(old(self).text(), old(self).cursor()),
    {
        match self.lexer.next_token() {
            Ok(t) => {
                self.current_token = t;
                Ok(())
            },
            Err(e) => Err(e),
        }
    }

    /// The failure of a rule that cannot start with the lookahead.
    fn unexpected(&self) -> (e: ParseError)
        ensures
            e@ == unexpected(self.cursor()),
    {
        match &self.current_token {
            Token::EOF => ParseError::WaitForInput,
            _ => ParseError::UnexpectedToken(self.lexer.pos, self.current_token.clone()),
        }
    }

    /// Consumes the lookahead if it is `expected_token`.
    fn eat(&mut self, expected_token: Token) -> (r: Result<(), ParseError>)
        ensures
            final(self).text() == old(self).text(),
            final(self).fault() == old(self).fault(),
            (final(self).cursor(), parsed(r)) == eat(
                old(self).text(),
                old(self).cursor(),
                expected_token@,
            ),
    {
        if self.current_token == Token::EOF && expected_token != Token::EOF {
            return Err(ParseError::WaitForInput);
        }
        if self.current_token != expected_token {
            return Err(
                ParseError::WrongToken(self.lexer.pos, expected_token, self.current_token.clone()),
            );
        }
        self.advance()
    }

    /// `IDENT`
    fn variable(&mut self) -> (r: Result<Expr, ParseError>)
        ensures
            final(self).text() == old(self).text(),
            final(self).fault() == old(self).fault(),
            (final(self).cursor(), parsed(r)) == parse_variable(
                old(self).text(),
                old(self).cursor(),
            ),
    {
        let name = match &self.current_token {
            Token::ID(id) => id.clone(),
            _ => {
                return Err(self.unexpected());
            },
        };
        self.advance()?;
        Ok(Expr::Var(name))
    }

    /// `factor := NUMBER | FLOAT | '-' factor | '(' expr ')' | IDENT`
    fn factor(&mut self) -> (r: Result<Expr, ParseError>)
        ensures
            final(self).text() == old(self).text(),
            final(self).fault() == old(self).fault(),
            (final(self).cursor(), parsed(r)) == parse_factor(old(self).text(), old(self).cursor()),
        decreases budget(old(self).text(), old(self).cursor()), 0int,
    {
        proof {
            lemma_advance(self.text(), self.cursor());
        }
        let old_token = self.current_token.clone();
        match old_token {
            Token::Number(n) => {
                self.advance()?;
                Ok(Expr::NumLit(n))
            },
            Token::Float(numeral) => {
                self.advance()?;
                Ok(Expr::FloatLit(numeral))
            },
            Token::Minus => {
                self.advance()?;
                let operand = self.factor()?;
                Ok(Expr::Prefix(Token::Minus, Box::new(operand)))
            },
            Token::LeftParen => {
                self.advance()?;
                let inner = self.expr()?;
                self.eat(Token::RightParen)?;
                Ok(inner)
            },
            _ => self.variable(),
        }
    }

    /// `term := factor (('*' | '/') factor)*`
    fn term(&mut self) -> (r: Result<Expr, ParseError>)
        ensures
            final(self).text() == old(self).text(),
            final(self).fault() == old(self).fault(),
            (final(self).cursor(), parsed(r)) == parse_term(old(self).text(), old(self).cursor()),
        decreases budget(old(self).text(), old(self).cursor()), 2int,
    {
        let mut node = self.factor()?;
        proof {
            lemma_parse_factor(old(self).text(), old(self).cursor());
        }
        loop
            invariant
                self.text() == old(self).text(),
                self.fault() == old(self).fault(),
                not_behind(self.text(), old(self).cursor(), self.cursor()),
                parse_term_rest(self.text(), self.cursor(), node@) == parse_term(
                    old(self).text(),
                    old(self).cursor(),
                ),
            decreases budget(self.text(), self.cursor()),
        {
            let ghost here = self.cursor();
            let token = self.current_token.clone();
            if !token.is(&[Token::Multiply, Token::Divide]) {
                return Ok(node);
            }
            proof {
                lemma_advance(self.text(), here);
            }
            self.advance()?;
            let ghost operand = self.cursor();
            let right = self.factor()?;
            proof {
                lemma_parse_factor(self.text(), operand);
            }
            node = Expr::Infix(Box::new(node), token, Box::new(right));
        }
    }

    /// `expr := term (('+' | '-') term)*`
    fn expr(&mut self) -> (r: Result<Expr, ParseError>)
        ensures
            final(self).text() == old(self).text(),
            final(self).fault() == old(self).fault(),
            (final(self).cursor(), parsed(r)) == parse_expr(old(self).text(), old(self).cursor()),
        decreases budget(old(self).text(), old(self).cursor()), 4int,
    {
        let mut node = self.term()?;
        proof {
            lemma_parse_term(old(self).text(), old(self).cursor());
        }
        loop
            invariant
                self.text() == old(self).text(),
                self.fault() == old(self).fault(),
                not_behind(self.text(), old(self).cursor(), self.cursor()),
                parse_expr_rest(self.text(), self.cursor(), node@) == parse_expr(
                    old(self).text(),
                    old(self).cursor(),
                ),
            decreases budget(self.text(), self.cursor()),
        {
            let ghost here = self.cursor();
            let token = self.current_token.clone();
            if !token.is(&[Token::Plus, Token::Minus]) {
                return Ok(node);
            }
            proof {
                lemma_advance(self.text(), here);
            }
            self.advance()?;
            let ghost operand = self.cursor();
            let right = self.term()?;
            proof {
                lemma_parse_term(self.text(), operand);
            }
            node = Expr::Infix(Box::new(node), token, Box::new(right));
        }
    }

    /// `'int' | 'float' | 'null' | IDENT`
    fn named_type(&mut self, mutable: bool) -> (r: Result<Type, ParseError>)
        ensures
            final(self).text() == old(self).text(),
            final(self).fault() == old(self).fault(),
            (final(self).cursor(), parsed(r)) == parse_type_name(
                old(self).text(),
                old(self).cursor(),
                mutable,
            ),
    {
        let named = match &self.current_token {
            Token::IntType | Token::FloatType | Token::Null | Token::ID(_) => true,
            _ => false,
        };
        if !named {
            return Err(self.unexpected());
        }
        let token = self.current_token.clone();
        self.advance()?;
        Ok(Type::new(token, mutable))
    }

    /// `type := 'mut'? ('int' | 'float' | 'null' | IDENT)`
    fn declared_type(&mut self) -> (r: Result<Type, ParseError>)
        ensures
            final(self).text() == old(self).text(),
            final(self).fault() == old(self).fault(),
            (final(self).cursor(), parsed(r)) == parse_type(old(self).text(), old(self).cursor()),
    {
        if self.current_token == Token::Mutable {
            self.advance()?;
            self.named_type(true)
        } else {
            self.named_type(false)
        }
    }

    /// `'=' expr`
    fn value(&mut self) -> (r: Result<Expr, ParseError>)
        ensures
            final(self).text() == old(self).text(),
            final(self).fault() == old(self).fault(),
            (final(self).cursor(), parsed(r)) == parse_value(old(self).text(), old(self).cursor()),
    {
        self.eat(Token::Equal)?;
        self.expr()
    }

    /// `'let' IDENT ':' type '=' expr`, a declaration, or
    /// `'let' IDENT '=' expr`, an assignment.
    fn assignment_statement(&mut self) -> (r: Result<Stmt, ParseError>)
        ensures
            final(self).text() == old(self).text(),
            final(self).fault() == old(self).fault(),
            (final(self).cursor(), parsed(r)) == parse_let(old(self).text(), old(self).cursor()),
    {
        self.eat(Token::Let)?;
        let target = self.variable()?;
        if self.current_token == Token::Colon {
            self.advance()?;
            let declared = self.declared_type()?;
            let init = self.value()?;
            Ok(Stmt::Let(target, declared, init))
        } else {
            let value = self.value()?;
            Ok(Stmt::Assign(target, value))
        }
    }

    /// `'return' expr`
    fn return_statement(&mut self) -> (r: Result<Stmt, ParseError>)
        ensures
            final(self).text() == old(self).text(),
            final(self).fault() == old(self).fault(),
            (final(self).cursor(), parsed(r)) == parse_return(old(self).text(), old(self).cursor()),
    {
        self.eat(Token::Ret)?;
        let value = self.expr()?;
        Ok(Stmt::Return(value))
    }

    /// The empty expression.
    fn empty() -> (e: Expr)
        ensures
            e@ == ExprView::Noop,
    {
        Expr::Noop
    }

    /// `'{' block '}'`
    fn scope_statement(&mut self) -> (r: Result<BlockStmt, ParseError>)
        requires
            old(self).cursor().tok == TokenView::LeftCurly,
        ensures
            final(self).text() == old(self).text(),
            final(self).fault() == old(self).fault(),
            (final(self).cursor(), match r {
                Ok(b) => Ok(StmtView::Block(b@)),
                Err(e) => Err(e@),
            }) == parse_statement(old(self).text(), old(self).cursor()),
        decreases budget(old(self).text(), old(self).cursor()), 0int,
    {
        proof {
            lemma_advance(self.text(), self.cursor());
        }
        self.eat(Token::LeftCurly)?;
        let nodes = self.statement_block()?;
        self.eat(Token::RightCurly)?;
        Ok(nodes)
    }

    /// `statement := '{' block '}' | let | return | empty`
    fn statement(&mut self) -> (r: Result<Stmt, ParseError>)
        ensures
            final(self).text() == old(self).text(),
            final(self).fault() == old(self).fault(),
            (final(self).cursor(), parsed(r)) == parse_statement(
                old(self).text(),
                old(self).cursor(),
            ),
        decreases budget(old(self).text(), old(self).cursor()), 1int,
    {
        match &self.current_token {
            Token::LeftCurly => {
                let block = self.scope_statement()?;
                Ok(Stmt::Block(block))
            },
            Token::Let => self.assignment_statement(),
            Token::Ret => self.return_statement(),
            _ => Ok(Stmt::Expr(Parser::empty())),
        }
    }

    /// `block := statement (';' statement)*`
    fn statement_block(&mut self) -> (r: Result<BlockStmt, ParseError>)
        ensures
            final(self).text() == old(self).text(),
            final(self).fault() == old(self).fault(),
            (final(self).cursor(), parsed(r)) == parse_block(old(self).text(), old(self).cursor()),
        decreases budget(old(self).text(), old(self).cursor()), 3int,
    {
        let first = self.statement()?;
        proof {
            lemma_parse_statement(old(self).text(), old(self).cursor());
        }
        let mut res: Vec<Stmt> = Vec::new();
        res.push(first);
        assert(statements_view(res@) =~= seq![first@]);
        loop
            invariant
                self.text() == old(self).text(),
                self.fault() == old(self).fault(),
                not_behind(self.text(), old(self).cursor(), self.cursor()),
                ({
                    let (c1, first) = parse_statement(old(self).text(), old(self).cursor());
                    &&& first is Ok
                    &&& not_behind(old(self).text(), old(self).cursor(), c1)
                    &&& parse_block_rest(self.text(), self.cursor(), statements_view(res@))
                        == parse_block_rest(old(self).text(), c1, seq![first->Ok_0])
                }),
            ensures
                self.text() == old(self).text(),
                self.fault() == old(self).fault(),
                ({
                    let (c1, first) = parse_statement(old(self).text(), old(self).cursor());
                    &&& first is Ok
                    &&& not_behind(old(self).text(), old(self).cursor(), c1)
                    &&& (self.cursor(), Ok::<Seq<StmtView>, ParseErrorView>(statements_view(res@)))
                        == parse_block_rest(old(self).text(), c1, seq![first->Ok_0])
                }),
            decreases budget(self.text(), self.cursor()),
        {
            let ghost here = self.cursor();
            let ghost done = statements_view(res@);
            if self.current_token != Token::Semicolon {
                break ;
            }
            proof {
                lemma_advance(self.text(), here);
            }
            self.advance()?;
            let ghost start = self.cursor();
            let next = self.statement()?;
            proof {
                lemma_parse_statement(self.text(), start);
            }
            res.push(next);
            assert(statements_view(res@) =~= done.push(next@));
        }
        match &self.current_token {
            Token::ID(_) => Err(
                ParseError::UnexpectedToken(self.lexer.pos, self.current_token.clone()),
            ),
            _ => Ok(BlockStmt { statements: res }),
        }
    }

    /// Parses the whole unit that was fed: a block, up to the end of the
    /// text. The result is `parse_program` of where the parser stood.
    pub fn parse(&mut self) -> (r: Result<BlockStmt, ParseError>)
        ensures
            final(self).text() == old(self).text(),
            final(self).fault() == old(self).fault(),
            (final(self).cursor(), parsed(r)) == parse_program(
                old(self).text(),
                old(self).cursor(),
                old(self).fault(),
            ),
    {
        match &self.fault {
            Some(e) => {
                return Err(e.clone());
            },
            None => {},
        }
        let program = self.statement_block()?;
        if self.current_token != Token::EOF {
            return Err(
                ParseError::WrongToken(self.lexer.pos, Token::EOF, self.current_token.clone()),
            );
        }
        Ok(program)
    }
}

} // verus!
