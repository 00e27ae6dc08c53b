//! Lexical tokens and their mathematical model.

use vstd::prelude::*;
use vstd::string::StringSliceAdditionalSpecFns;
use vstd::utf8::encode_utf8_decode_utf8;

verus! {

/// One lexical unit of the language.
///
/// A floating-point literal keeps the text of its numeral: the library never
/// computes with floating-point numbers itself.
#[derive(Debug)]
pub enum Token {
    Number(i64),
    Float(String),
    Equal,
    Plus,
    Minus,
    Multiply,
    Divide,
    LeftParen,
    RightParen,
    LeftCurly,
    RightCurly,
    Semicolon,
    Let,
    ID(String),
    Colon,
    Comma,
    IntType,
    FloatType,
    Ret,
    Mutable,
    Null,
    EOF,
}

/// The model of a [`Token`]: text payloads are sequences of characters.
pub enum TokenView {
    Number(i64),
    Float(Seq<char>),
    Equal,
    Plus,
    Minus,
    Multiply,
    Divide,
    LeftParen,
    RightParen,
    LeftCurly,
    RightCurly,
    Semicolon,
    Let,
    ID(Seq<char>),
    Colon,
    Comma,
    IntType,
    FloatType,
    Ret,
    Mutable,
    Null,
    EOF,
}

impl View for Token {
    type V = TokenView;

    open spec fn view(&self) -> TokenView {
        match self {
            Token::Number(n) => TokenView::Number(*n),
            Token::Float(s) => TokenView::Float(s@),
            Token::Equal => TokenView::Equal,
            Token::Plus => TokenView::Plus,
            Token::Minus => TokenView::Minus,
            Token::Multiply => TokenView::Multiply,
            Token::Divide => TokenView::Divide,
            Token::LeftParen => TokenView::LeftParen,
            Token::RightParen => TokenView::RightParen,
            Token::LeftCurly => TokenView::LeftCurly,
            Token::RightCurly => TokenView::RightCurly,
            Token::Semicolon => TokenView::Semicolon,
            Token::Let => TokenView::Let,
            Token::ID(s) => TokenView::ID(s@),
            Token::Colon => TokenView::Colon,
            Token::Comma => TokenView::Comma,
            Token::IntType => TokenView::IntType,
            Token::FloatType => TokenView::FloatType,
            Token::Ret => TokenView::Ret,
            Token::Mutable => TokenView::Mutable,
            Token::Null => TokenView::Null,
            Token::EOF => TokenView::EOF,
        }
    }
}

impl Clone for Token {
    fn clone(&self) -> (res: Token)
        ensures
            res == *self,
    {
        match self {
            Token::Number(n) => Token::Number(*n),
            Token::Float(s) => Token::Float(s.clone()),
            Token::Equal => Token::Equal,
            Token::Plus => Token::Plus,
            Token::Minus => Token::Minus,
            Token::Multiply => Token::Multiply,
            Token::Divide => Token::Divide,
            Token::LeftParen => Token::LeftParen,
            Token::RightParen => Token::RightParen,
            Token::LeftCurly => Token::LeftCurly,
            Token::RightCurly => Token::RightCurly,
            Token::Semicolon => Token::Semicolon,
            Token::Let => Token::Let,
            Token::ID(s) => Token::ID(s.clone()),
            Token::Colon => Token::Colon,
            Token::Comma => Token::Comma,
            Token::IntType => Token::IntType,
            Token::FloatType => Token::FloatType,
            Token::Ret => Token::Ret,
            Token::Mutable => Token::Mutable,
            Token::Null => Token::Null,
            Token::EOF => Token::EOF,
        }
    }
}

impl PartialEq for Token {
    fn eq(&self, other: &Token) -> (r: bool) {
        match (self, other) {
            (Token::Number(a), Token::Number(b)) => *a == *b,
            (Token::Float(a), Token::Float(b)) => *a == *b,
            (Token::Equal, Token::Equal) => true,
            (Token::Plus, Token::Plus) => true,
            (Token::Minus, Token::Minus) => true,
            (Token::Multiply, Token::Multiply) => true,
            (Token::Divide, Token::Divide) => true,
            (Token::LeftParen, Token::LeftParen) => true,
            (Token::RightParen, Token::RightParen) => true,
            (Token::LeftCurly, Token::LeftCurly) => true,
            (Token::RightCurly, Token::RightCurly) => true,
            (Token::Semicolon, Token::Semicolon) => true,
            (Token::Let, Token::Let) => true,
            (Token::ID(a), Token::ID(b)) => *a == *b,
            (Token::Colon, Token::Colon) => true,
            (Token::Comma, Token::Comma) => true,
            (Token::IntType, Token::IntType) => true,
            (Token::FloatType, Token::FloatType) => true,
            (Token::Ret, Token::Ret) => true,
            (Token::Mutable, Token::Mutable) => true,
            (Token::Null, Token::Null) => true,
            (Token::EOF, Token::EOF) => true,
            _ => false,
        }
    }
}

impl vstd::std_specs::cmp::PartialEqSpecImpl for Token {
    open spec fn obeys_eq_spec() -> bool {
        true
    }

    open spec fn eq_spec(&self, other: &Token) -> bool {
        self@ == other@
    }
}

impl Token {
    /// Whether this token is one of `tokens`.
    pub fn is(&self, tokens: &[Token]) -> (r: bool)
        ensures
            r == exists|i: int| 0 <= i < tokens@.len() && tokens@[i]@ == self@,
    {
        let mut k: usize = 0;
        while k < tokens.len()
            invariant
                k <= tokens@.len(),
                forall|i: int| 0 <= i < k ==> tokens@[i]@ != self@,
            decreases tokens@.len() - k,
        {
            if *self == tokens[k] {
                return true;
            }
            k += 1;
        }
        false
    }
}

/// The keyword that `word` spells, if it is reserved.
pub open spec fn keyword_of(word: Seq<char>) -> Option<TokenView> {
    if word == "let"@ {
        Some(TokenView::Let)
    } else if word == "int"@ {
        Some(TokenView::IntType)
    } else if word == "float"@ {
        Some(TokenView::FloatType)
    } else if word == "return"@ {
        Some(TokenView::Ret)
    } else if word == "null"@ {
        Some(TokenView::Null)
    } else if word == "mut"@ {
        Some(TokenView::Mutable)
    } else {
        None
    }
}

/// Whether two strings hold the same characters.
pub fn str_eq(a: &str, b: &str) -> (r: bool)
    ensures
        r == (a@ == b@),
{
    let x = a.as_bytes();
    let y = b.as_bytes();
    proof {
        encode_utf8_decode_utf8(a@);
        encode_utf8_decode_utf8(b@);
    }
    if x.len() != y.len() {
        return false;
    }
    let mut k: usize = 0;
    while k < x.len()
        invariant
            x@ == a.spec_bytes(),
            y@ == b.spec_bytes(),
            x@.len() == y@.len(),
            k <= x@.len(),
            forall|i: int| 0 <= i < k ==> x@[i] == y@[i],
        decreases x@.len() - k,
    {
        if x[k] != y[k] {
            return false;
        }
        k += 1;
    }
    assert(x@ =~= y@);
    true
}

/// Looks `word` up among the reserved keywords.
pub fn keyword(word: &str) -> (r: Option<Token>)
    ensures
        match r {
            Some(t) => keyword_of(word@) == Some(t@),
            None => keyword_of(word@) is None,
        },
{
    if str_eq(word, "let") {
        Some(Token::Let)
    } else if str_eq(word, "int") {
        Some(Token::IntType)
    } else if str_eq(word, "float") {
        Some(Token::FloatType)
    } else if str_eq(word, "return") {
        Some(Token::Ret)
    } else if str_eq(word, "null") {
        Some(Token::Null)
    } else if str_eq(word, "mut") {
        Some(Token::Mutable)
    } else {
        None
    }
}

} // verus!
