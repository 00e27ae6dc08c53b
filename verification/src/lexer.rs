//! The tokenizer: from buffered bytes to tokens, one at a time.
//!
//! The buffer is read byte by byte, each byte taken as the character with the
//! same code. The functions of the first half of this file say, over a
//! sequence of bytes and a position, which token starts at the position and
//! where it ends; the `Lexer` of the second half computes exactly that.

use vstd::prelude::*;
use vstd::string::*;
use vstd::utf8::encode_utf8;
use crate::errors::{ParseError, ParseErrorView};
use crate::token::{keyword, keyword_of, Token, TokenView};

verus! {

/// Whether `c` has the Unicode property `White_Space`.
pub uninterp spec fn unicode_whitespace(c: char) -> bool;

/// Whether `c` is alphabetic or numeric in the sense of Unicode.
pub uninterp spec fn unicode_alphanumeric(c: char) -> bool;

/// `char::is_whitespace` of the standard library. The contract only names
/// what the call returns, as a function of the character.
#[verifier::external_body]
fn is_whitespace(c: char) -> (r: bool)
    ensures
        r == unicode_whitespace(c),
{
    c.is_whitespace()
}

/// `char::is_alphanumeric` of the standard library. The contract only names
/// what the call returns, as a function of the character.
#[verifier::external_body]
fn is_alphanumeric(c: char) -> (r: bool)
    ensures
        r == unicode_alphanumeric(c),
{
    c.is_alphanumeric()
}

/// `String::push` of the standard library: the character is appended to the
/// end of the string.
#[verifier::external_body]
fn push_char(s: &mut String, c: char)
    ensures
        final(s)@ == old(s)@.push(c),
{
    s.push(c)
}

/// The code of the digit `0`.
pub const DIGIT_ZERO: u8 = 48;

/// The character at `pos`, if `pos` lies in the text.
pub open spec fn char_at(text: Seq<u8>, pos: int) -> Option<char> {
    if 0 <= pos < text.len() {
        Some(text[pos] as char)
    } else {
        None
    }
}

/// The characters of `text` from `from` up to `to`.
pub open spec fn chars_between(text: Seq<u8>, from: int, to: int) -> Seq<char> {
    Seq::new((to - from) as nat, |i: int| text[from + i] as char)
}

/// A decimal digit.
pub open spec fn is_digit(c: char) -> bool {
    '0' <= c && c <= '9'
}

/// The first position at or after `pos` that holds no whitespace.
pub open spec fn whitespace_end(text: Seq<u8>, pos: int) -> int
    decreases text.len() - pos,
{
    if 0 <= pos < text.len() && unicode_whitespace(text[pos] as char) {
        whitespace_end(text, pos + 1)
    } else {
        pos
    }
}

/// The first position at or after `pos` that holds a `#`, or the end.
pub open spec fn hash_or_end(text: Seq<u8>, pos: int) -> int
    decreases text.len() - pos,
{
    if 0 <= pos < text.len() && text[pos] as char != '#' {
        hash_or_end(text, pos + 1)
    } else {
        pos
    }
}

/// Where the comment that opens at `pos` ends: just behind its closing `#`,
/// or at the end of the text when none closes it.
pub open spec fn comment_end(text: Seq<u8>, pos: int) -> int {
    if 0 <= pos < text.len() {
        let close = hash_or_end(text, pos + 1);
        if close < text.len() {
            close + 1
        } else {
            close
        }
    } else {
        pos
    }
}

/// The first position at or after `pos` that starts a token: whitespace and
/// comments are passed over.
pub open spec fn blank_end(text: Seq<u8>, pos: int) -> int
    decreases text.len() - pos,
{
    let p = whitespace_end(text, pos);
    if 0 <= p < text.len() && text[p] as char == '#' {
        proof {
            lemma_whitespace_end(text, pos);
            lemma_hash_or_end(text, p + 1);
        }
        blank_end(text, comment_end(text, p))
    } else {
        p
    }
}

/// The end of the run of alphanumeric characters that starts at `pos`.
pub open spec fn word_end(text: Seq<u8>, pos: int) -> int
    decreases text.len() - pos,
{
    if 0 <= pos < text.len() && unicode_alphanumeric(text[pos] as char) {
        word_end(text, pos + 1)
    } else {
        pos
    }
}

/// The end of the numeral that runs through `pos`: digits, and one `.` as
/// long as none was passed (`dotted`).
pub open spec fn numeral_end(text: Seq<u8>, pos: int, dotted: bool) -> int
    decreases text.len() - pos,
{
    if 0 <= pos < text.len() && (is_digit(text[pos] as char) || (!dotted && text[pos] as char
        == '.')) {
        numeral_end(text, pos + 1, dotted || text[pos] as char == '.')
    } else {
        pos
    }
}

/// The number that a sequence of decimal digits denotes.
pub open spec fn decimal_value(digits: Seq<char>) -> int
    decreases digits.len(),
{
    if digits.len() == 0 {
        0
    } else {
        decimal_value(digits.drop_last()) * 10 + (digits.last() as int - '0' as int)
    }
}

/// The token that a single punctuation character stands for.
pub open spec fn punctuation(c: char) -> Option<TokenView> {
    match c {
        '+' => Some(TokenView::Plus),
        '-' => Some(TokenView::Minus),
        '*' => Some(TokenView::Multiply),
        '/' => Some(TokenView::Divide),
        '(' => Some(TokenView::LeftParen),
        ')' => Some(TokenView::RightParen),
        '{' => Some(TokenView::LeftCurly),
        '}' => Some(TokenView::RightCurly),
        '=' => Some(TokenView::Equal),
        ';' => Some(TokenView::Semicolon),
        ':' => Some(TokenView::Colon),
        ',' => Some(TokenView::Comma),
        _ => None,
    }
}

/// The keyword or identifier that starts at `pos`, and where it ends.
pub open spec fn word_token(text: Seq<u8>, pos: int) -> (int, Result<TokenView, ParseErrorView>) {
    let end = word_end(text, pos);
    let word = chars_between(text, pos, end);
    match keyword_of(word) {
        Some(t) => (end, Ok(t)),
        None => (end, Ok(TokenView::ID(word))),
    }
}

/// The numeral that starts at `pos`, and where it ends. With a `.` it is a
/// floating-point literal; without, an integer, which must fit 64 bits.
pub open spec fn numeral_token(text: Seq<u8>, pos: int) -> (
    int,
    Result<TokenView, ParseErrorView>,
) {
    let end = numeral_end(text, pos, false);
    let word = chars_between(text, pos, end);
    if word.contains('.') {
        (end, Ok(TokenView::Float(word)))
    } else if decimal_value(word) <= i64::MAX {
        (end, Ok(TokenView::Number(decimal_value(word) as i64)))
    } else {
        (end, Err(ParseErrorView::InternalError))
    }
}

/// The token that follows position `pos`, and the position behind it.
///
/// Whitespace and comments are skipped first. At the end of the text the
/// token is `EOF`, and the position stays. A character that starts no token
/// is an error that carries its position, and it is passed over.
pub open spec fn next_token_at(text: Seq<u8>, pos: int) -> (
    int,
    Result<TokenView, ParseErrorView>,
) {
    let p = blank_end(text, pos);
    if 0 <= p < text.len() {
        let c = text[p] as char;
        if is_digit(c) {
            numeral_token(text, p)
        } else if unicode_alphanumeric(c) {
            word_token(text, p)
        } else {
            match punctuation(c) {
                Some(t) => (p + 1, Ok(t)),
                None => (p + 1, Err(ParseErrorView::UnknownToken(p, c))),
            }
        }
    } else {
        (p, Ok(TokenView::EOF))
    }
}

/// The view of what `Lexer::next_token` returns.
pub open spec fn token_result_view(r: Result<Token, ParseError>) -> Result<
    TokenView,
    ParseErrorView,
> {
    match r {
        Ok(t) => Ok(t@),
        Err(e) => Err(e@),
    }
}

/// Whitespace ends at the first character that is none: it lies no further
/// back than `pos` and not behind the text, all between is whitespace, and
/// what stands there is not.
pub proof fn lemma_whitespace_end(text: Seq<u8>, pos: int)
    ensures
        pos <= whitespace_end(text, pos),
        pos <= text.len() ==> whitespace_end(text, pos) <= text.len(),
        forall|i: int|
            0 <= pos <= i < whitespace_end(text, pos) ==> unicode_whitespace(
                #[trigger] text[i] as char,
            ),
        0 <= pos && whitespace_end(text, pos) < text.len() ==> !unicode_whitespace(
            text[whitespace_end(text, pos)] as char,
        ),
    decreases text.len() - pos,
{
    if 0 <= pos < text.len() && unicode_whitespace(text[pos] as char) {
        lemma_whitespace_end(text, pos + 1);
    }
}

/// A comment is searched for its closing `#` up to the first `#`: it lies
/// no further back than `pos` and not behind the text, and no `#` stands
/// between.
pub proof fn lemma_hash_or_end(text: Seq<u8>, pos: int)
    ensures
        pos <= hash_or_end(text, pos),
        pos <= text.len() ==> hash_or_end(text, pos) <= text.len(),
        forall|i: int| 0 <= pos <= i < hash_or_end(text, pos) ==> #[trigger] text[i] as char != '#',
        0 <= pos && hash_or_end(text, pos) < text.len() ==> text[hash_or_end(text, pos)] as char
            == '#',
    decreases text.len() - pos,
{
    if 0 <= pos < text.len() && text[pos] as char != '#' {
        lemma_hash_or_end(text, pos + 1);
    }
}

/// Skipping blanks never moves backwards nor past the end of the text.
pub proof fn lemma_blank_end(text: Seq<u8>, pos: int)
    ensures
        pos <= blank_end(text, pos),
        pos <= text.len() ==> blank_end(text, pos) <= text.len(),
    decreases text.len() - pos,
{
    let p = whitespace_end(text, pos);
    lemma_whitespace_end(text, pos);
    if 0 <= p < text.len() && text[p] as char == '#' {
        lemma_hash_or_end(text, p + 1);
        lemma_blank_end(text, comment_end(text, p));
    }
}

/// A word is a maximal run: it ends no further back than `pos` and not
/// behind the text, all of it is alphanumeric, and what follows is not.
pub proof fn lemma_word_end(text: Seq<u8>, pos: int)
    ensures
        pos <= word_end(text, pos),
        pos <= text.len() ==> word_end(text, pos) <= text.len(),
        forall|i: int|
            0 <= pos <= i < word_end(text, pos) ==> unicode_alphanumeric(
                #[trigger] text[i] as char,
            ),
        0 <= pos && word_end(text, pos) < text.len() ==> !unicode_alphanumeric(
            text[word_end(text, pos)] as char,
        ),
    decreases text.len() - pos,
{
    if 0 <= pos < text.len() && unicode_alphanumeric(text[pos] as char) {
        lemma_word_end(text, pos + 1);
    }
}

/// A numeral is a maximal run: it ends no further back than `pos` and not
/// behind the text, all of it is digits and points, and no digit follows.
pub proof fn lemma_numeral_end(text: Seq<u8>, pos: int, dotted: bool)
    ensures
        pos <= numeral_end(text, pos, dotted),
        pos <= text.len() ==> numeral_end(text, pos, dotted) <= text.len(),
        forall|i: int|
            0 <= pos <= i < numeral_end(text, pos, dotted) ==> is_digit(#[trigger] text[i] as char)
                || text[i] as char == '.',
        0 <= pos && numeral_end(text, pos, dotted) < text.len() ==> !is_digit(
            text[numeral_end(text, pos, dotted)] as char,
        ),
    decreases text.len() - pos,
{
    if 0 <= pos < text.len() && (is_digit(text[pos] as char) || (!dotted && text[pos] as char
        == '.')) {
        lemma_numeral_end(text, pos + 1, dotted || text[pos] as char == '.');
    }
}

/// A token never ends before the position it was asked at, nor behind the
/// text; and every token but `EOF` takes at least one character.
pub proof fn lemma_next_token_at(text: Seq<u8>, pos: int)
    ensures
        pos <= next_token_at(text, pos).0,
        pos <= text.len() ==> next_token_at(text, pos).0 <= text.len(),
        next_token_at(text, pos).1 != Ok::<TokenView, ParseErrorView>(TokenView::EOF) ==> 0 <= pos
            < next_token_at(text, pos).0 <= text.len(),
{
    let p = blank_end(text, pos);
    lemma_blank_end(text, pos);
    if 0 <= p < text.len() {
        lemma_numeral_end(text, p + 1, false);
        lemma_numeral_end(text, p + 1, true);
        lemma_word_end(text, p + 1);
        if 0 > pos {
            lemma_blank_negative(text, pos);
        }
    }
}

/// Before the start of the text nothing is skipped.
pub proof fn lemma_blank_negative(text: Seq<u8>, pos: int)
    requires
        pos < 0,
    ensures
        blank_end(text, pos) == pos,
{
}

/// The tokenizer.
pub struct Lexer {
    /// The buffered text.
    pub text: Vec<u8>,
    /// The position of the next unread byte.
    pub pos: usize,
}

impl Lexer {
    /// An empty buffer, at position zero.
    pub fn new() -> (lexer: Self)
        ensures
            lexer.text@ == Seq::<u8>::empty(),
            lexer.pos == 0,
    {
        Self { text: Vec::new(), pos: 0 }
    }

    /// Feeds the UTF-8 bytes of `line`. With `append` they follow what is
    /// buffered and the position stays; without, they replace it and the
    /// position goes back to zero.
    pub fn feed_next_line(&mut self, line: String, append: bool)
        ensures
            final(self).text@ == if append {
                old(self).text@ + encode_utf8(line@)
            } else {
                encode_utf8(line@)
            },
            final(self).pos == if append {
                old(self).pos
            } else {
                0
            },
    {
        let mut bytes = line.as_str().as_bytes_vec();
        if append {
            self.text.append(&mut bytes);
        } else {
            self.text = bytes;
            self.pos = 0;
        }
    }

    /// The character at the position, or `None` behind the text.
    pub fn get_current_char(&self) -> (c: Option<char>)
        ensures
            c == char_at(self.text@, self.pos as int),
    {
        if self.pos < self.text.len() {
            Some(self.text[self.pos] as char)
        } else {
            None
        }
    }

    /// Moves to the next position, unless the text is exhausted.
    pub fn advance(&mut self)
        ensures
            final(self).text@ == old(self).text@,
            final(self).pos == if old(self).pos < old(self).text@.len() {
                old(self).pos + 1
            } else {
                old(self).pos as int
            },
    {
        if self.pos < self.text.len() {
            self.pos += 1;
        }
    }

    /// The character behind the current one, or `None` where there is none.
    pub fn peek(&self) -> (c: Option<char>)
        ensures
            c == char_at(self.text@, self.pos + 1),
    {
        if self.pos < self.text.len() && self.pos + 1 < self.text.len() {
            Some(self.text[self.pos + 1] as char)
        } else {
            None
        }
    }

    /// Moves to the next character that is no whitespace.
    pub fn skip_whitespace(&mut self)
        ensures
            final(self).text@ == old(self).text@,
            final(self).pos == whitespace_end(old(self).text@, old(self).pos as int),
    {
        while self.pos < self.text.len() && is_whitespace(self.text[self.pos] as char)
            invariant
                self.text@ == old(self).text@,
                whitespace_end(self.text@, self.pos as int) == whitespace_end(
                    old(self).text@,
                    old(self).pos as int,
                ),
            decreases self.text@.len() - self.pos,
        {
            self.pos += 1;
        }
    }

    /// Passes over the comment that opens at the position.
    pub fn skip_comment(&mut self)
        ensures
            final(self).text@ == old(self).text@,
            final(self).pos == comment_end(old(self).text@, old(self).pos as int),
    {
        if self.pos >= self.text.len() {
            return ;
        }
        self.pos += 1;
        while self.pos < self.text.len() && self.text[self.pos] as char != '#'
            invariant
                self.text@ == old(self).text@,
                self.pos <= self.text@.len(),
                hash_or_end(self.text@, self.pos as int) == hash_or_end(
                    old(self).text@,
                    old(self).pos + 1,
                ),
            decreases self.text@.len() - self.pos,
        {
            self.pos += 1;
        }
        if self.pos < self.text.len() {
            self.pos += 1;
        }
    }

    /// Passes over whitespace and comments, up to the start of a token.
    fn skip_blank(&mut self)
        ensures
            final(self).text@ == old(self).text@,
            final(self).pos == blank_end(old(self).text@, old(self).pos as int),
    {
        self.skip_whitespace();
        proof {
            lemma_blank_after_whitespace(old(self).text@, old(self).pos as int);
        }
        while self.pos < self.text.len() && self.text[self.pos] as char == '#'
            invariant
                self.text@ == old(self).text@,
                self.pos == whitespace_end(self.text@, self.pos as int),
                blank_end(self.text@, self.pos as int) == blank_end(
                    old(self).text@,
                    old(self).pos as int,
                ),
            decreases self.text@.len() - self.pos,
        {
            proof {
                lemma_hash_or_end(self.text@, self.pos + 1);
            }
            self.skip_comment();
            proof {
                lemma_whitespace_end(self.text@, self.pos as int);
            }
            let ghost before = self.pos as int;
            self.skip_whitespace();
            proof {
                lemma_blank_after_whitespace(self.text@, before);
            }
        }
    }

    /// Reads the keyword or identifier that starts at the position.
    fn id(&mut self) -> (r: Result<Token, ParseError>)
        ensures
            final(self).text@ == old(self).text@,
            (final(self).pos as int, token_result_view(r)) == word_token(
                old(self).text@,
                old(self).pos as int,
            ),
    {
        let mut res = String::new();
        while self.pos < self.text.len() && is_alphanumeric(self.text[self.pos] as char)
            invariant
                self.text@ == old(self).text@,
                old(self).pos <= self.pos,
                word_end(self.text@, self.pos as int) == word_end(
                    old(self).text@,
                    old(self).pos as int,
                ),
                res@ == chars_between(self.text@, old(self).pos as int, self.pos as int),
            decreases self.text@.len() - self.pos,
        {
            push_char(&mut res, self.text[self.pos] as char);
            self.pos += 1;
            assert(res@ =~= chars_between(self.text@, old(self).pos as int, self.pos as int));
        }
        match keyword(res.as_str()) {
            Some(t) => Ok(t),
            None => Ok(Token::ID(res)),
        }
    }

    /// Reads the numeral that starts at the position.
    fn number(&mut self) -> (r: Result<Token, ParseError>)
        ensures
            final(self).text@ == old(self).text@,
            (final(self).pos as int, token_result_view(r)) == numeral_token(
                old(self).text@,
                old(self).pos as int,
            ),
    {
        let mut numeral = String::new();
        let mut float = false;
        let mut value: i64 = 0;
        let mut fits = true;
        loop
            invariant
                self.text@ == old(self).text@,
                old(self).pos <= self.pos,
                numeral_end(self.text@, self.pos as int, float) == numeral_end(
                    old(self).text@,
                    old(self).pos as int,
                    false,
                ),
                numeral@ == chars_between(self.text@, old(self).pos as int, self.pos as int),
                float == numeral@.contains('.'),
                !float && fits ==> 0 <= value == decimal_value(numeral@),
                !float && !fits ==> decimal_value(numeral@) > i64::MAX,
            ensures
                self.pos == numeral_end(old(self).text@, old(self).pos as int, false),
            decreases self.text@.len() - self.pos,
        {
            if self.pos >= self.text.len() {
                break ;
            }
            let c = self.text[self.pos] as char;
            let digit = '0' <= c && c <= '9';
            if !(digit || (!float && c == '.')) {
                break ;
            }
            proof {
                lemma_contains_push(numeral@, c, '.');
                lemma_decimal_push(numeral@, c);
            }
            if !digit {
                float = true;
            } else if !float && fits {
                let d = (self.text[self.pos] - DIGIT_ZERO) as i64;
                if value <= (i64::MAX - d) / 10 {
                    value = value * 10 + d;
                } else {
                    fits = false;
                }
            }
            push_char(&mut numeral, c);
            self.pos += 1;
            assert(numeral@ =~= chars_between(
                self.text@,
                old(self).pos as int,
                self.pos as int,
            ));
        }
        if float {
            Ok(Token::Float(numeral))
        } else if fits {
            Ok(Token::Number(value))
        } else {
            Err(ParseError::InternalError)
        }
    }

    /// The token that a punctuation character stands for.
    fn punctuation_token(c: char) -> (r: Option<Token>)
        ensures
            match r {
                Some(t) => punctuation(c) == Some(t@),
                None => punctuation(c) is None,
            },
    {
        match c {
            '+' => Some(Token::Plus),
            '-' => Some(Token::Minus),
            '*' => Some(Token::Multiply),
            '/' => Some(Token::Divide),
            '(' => Some(Token::LeftParen),
            ')' => Some(Token::RightParen),
            '{' => Some(Token::LeftCurly),
            '}' => Some(Token::RightCurly),
            '=' => Some(Token::Equal),
            ';' => Some(Token::Semicolon),
            ':' => Some(Token::Colon),
            ',' => Some(Token::Comma),
            _ => None,
        }
    }

    /// Consumes and returns the next token.
    ///
    /// Once the text is exhausted every call returns `EOF`.
    pub fn next_token(&mut self) -> (r: Result<Token, ParseError>)
        ensures
            final(self).text@ == old(self).text@,
            (final(self).pos as int, token_result_view(r)) == next_token_at(
                old(self).text@,
                old(self).pos as int,
            ),
    {
        self.skip_blank();
        if self.pos >= self.text.len() {
            return Ok(Token::EOF);
        }
        let pos = self.pos;
        let c = self.text[pos] as char;
        if '0' <= c && c <= '9' {
            return self.number();
        }
        if is_alphanumeric(c) {
            return self.id();
        }
        self.pos += 1;
        match Self::punctuation_token(c) {
            Some(t) => Ok(t),
            None => Err(ParseError::UnknownToken(pos, c)),
        }
    }
}

/// A character that is no digit, not alphanumeric and no punctuation is
/// reported as unknown, with the position it stands at, and passed over.
pub proof fn lemma_unknown_character(text: Seq<u8>, pos: int)
    requires
        0 <= blank_end(text, pos) < text.len(),
        !is_digit(text[blank_end(text, pos)] as char),
        !unicode_alphanumeric(text[blank_end(text, pos)] as char),
        punctuation(text[blank_end(text, pos)] as char) is None,
    ensures
        next_token_at(text, pos) == (
            blank_end(text, pos) + 1,
            Err::<TokenView, ParseErrorView>(
                ParseErrorView::UnknownToken(
                    blank_end(text, pos),
                    text[blank_end(text, pos)] as char,
                ),
            ),
        ),
{
}

/// Once the end of the text was reported, it is reported again, and the
/// position stays.
pub proof fn lemma_end_of_input_repeats(text: Seq<u8>, pos: int)
    requires
        next_token_at(text, pos).1 == Ok::<TokenView, ParseErrorView>(TokenView::EOF),
    ensures
        next_token_at(text, next_token_at(text, pos).0) == next_token_at(text, pos),
{
    lemma_blank_end(text, pos);
}

/// Where whitespace ends, no whitespace follows.
pub proof fn lemma_whitespace_fixed(text: Seq<u8>, pos: int)
    ensures
        whitespace_end(text, whitespace_end(text, pos)) == whitespace_end(text, pos),
    decreases text.len() - pos,
{
    if 0 <= pos < text.len() && unicode_whitespace(text[pos] as char) {
        lemma_whitespace_fixed(text, pos + 1);
    }
}

/// Whitespace first, blanks after: the same place as blanks at once.
pub proof fn lemma_blank_after_whitespace(text: Seq<u8>, pos: int)
    ensures
        whitespace_end(text, whitespace_end(text, pos)) == whitespace_end(text, pos),
        blank_end(text, whitespace_end(text, pos)) == blank_end(text, pos),
{
    lemma_whitespace_fixed(text, pos);
}

/// A sequence with one more element holds `x` if the sequence did or the
/// element is `x`.
proof fn lemma_contains_push(s: Seq<char>, c: char, x: char)
    ensures
        s.push(c).contains(x) == (s.contains(x) || c == x),
{
    if s.contains(x) {
        let i = choose|i: int| 0 <= i < s.len() && s[i] == x;
        assert(s.push(c)[i] == x);
    }
    if c == x {
        assert(s.push(c)[s.len() as int] == x);
    }
}

/// The value of a numeral with one more digit.
proof fn lemma_decimal_push(s: Seq<char>, c: char)
    ensures
        decimal_value(s.push(c)) == decimal_value(s) * 10 + (c as int - '0' as int),
{
    assert(s.push(c).drop_last() =~= s);
}

} // verus!
