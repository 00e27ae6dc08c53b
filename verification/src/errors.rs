//! Failures of tokenizing and parsing.

use vstd::prelude::*;
use crate::token::{Token, TokenView};

verus! {

/// Why a parse attempt stopped.
#[derive(Debug, PartialEq)]
pub enum ParseError {
    /// A character that starts no token, with its position.
    UnknownToken(usize, char),
    /// The token that was expected and the token that was found, with the
    /// position of the tokenizer.
    WrongToken(usize, Token, Token),
    /// A token that may not stand where it was found.
    UnexpectedToken(usize, Token),
    UninitializedValue,
    /// A numeral that does not fit the integer type.
    InternalError,
    /// The text ended where more is needed: the host may feed more.
    WaitForInput,
}

/// The model of a [`ParseError`].
pub enum ParseErrorView {
    UnknownToken(int, char),
    WrongToken(int, TokenView, TokenView),
    UnexpectedToken(int, TokenView),
    UninitializedValue,
    InternalError,
    WaitForInput,
}

impl View for ParseError {
    type V = ParseErrorView;

    open spec fn view(&self) -> ParseErrorView {
        match self {
            ParseError::UnknownToken(pos, c) => ParseErrorView::UnknownToken(*pos as int, *c),
            ParseError::WrongToken(pos, e, f) => ParseErrorView::WrongToken(*pos as int, e@, f@),
            ParseError::UnexpectedToken(pos, f) => ParseErrorView::UnexpectedToken(*pos as int, f@),
            ParseError::UninitializedValue => ParseErrorView::UninitializedValue,
            ParseError::InternalError => ParseErrorView::InternalError,
            ParseError::WaitForInput => ParseErrorView::WaitForInput,
        }
    }
}

impl Clone for ParseError {
    fn clone(&self) -> (res: ParseError)
        ensures
            res == *self,
    {
        match self {
            ParseError::UnknownToken(pos, c) => ParseError::UnknownToken(*pos, *c),
            ParseError::WrongToken(pos, e, f) => ParseError::WrongToken(*pos, e.clone(), f.clone()),
            ParseError::UnexpectedToken(pos, f) => ParseError::UnexpectedToken(*pos, f.clone()),
            ParseError::UninitializedValue => ParseError::UninitializedValue,
            ParseError::InternalError => ParseError::InternalError,
            ParseError::WaitForInput => ParseError::WaitForInput,
        }
    }
}

} // verus!
