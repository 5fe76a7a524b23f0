//! The tokenizer: a cursor over the input, a scratch buffer for the text of
//! words and numbers, and the rule that a sentinel is the last thing it hands
//! out.

use crate::cursor::{found_at, Cursor};
use crate::grammar::{char_at_is, run_end};
use crate::stream::{lemma_next_moves_forward, LexerState};
use crate::text::{digit, is_ascii, letter, CharClass};
use crate::token::{view_of, word_token, Token, TokenView};
use vstd::prelude::*;

verus! {

/// What can be tokenized.
pub trait Lexable<'a> {
    /// The text that is read.
    spec fn source(self) -> Seq<char>;

    /// A tokenizer at the beginning of the text.
    fn lex(self) -> (lexer: Lexer<'a>)
        ensures
            lexer@ == LexerState::start(self.source()),
    ;
}

impl<'a> Lexable<'a> for &'a str {
    open spec fn source(self) -> Seq<char> {
        self@
    }

    #[inline(always)]
    fn lex(self) -> (lexer: Lexer<'a>) {
        Lexer::new(self)
    }
}

/// A tokenizer over a borrowed text. It hands out one token per request, and
/// after a sentinel nothing more.
#[must_use]
pub struct Lexer<'a> {
    scratch: String,
    chars: Option<Cursor<'a>>,
}

impl<'a> View for Lexer<'a> {
    type V = LexerState;

    closed spec fn view(&self) -> LexerState {
        match self.chars {
            Some(cursor) => LexerState::Reading { input: cursor.text(), pos: cursor.position() },
            None => LexerState::Closed,
        }
    }
}

impl<'a> Lexer<'a> {
    /// A tokenizer at the beginning of `input`.
    #[inline(always)]
    pub fn new(input: &'a str) -> (lexer: Lexer<'a>)
        ensures
            lexer@ == LexerState::start(input@),
    {
        // 52 is the length of the longest underscore-delimited literal of a
        // signed 128-bit integer; 64 is the next power of two.
        let scratch = String::with_capacity(64);
        let chars = Some(Cursor::new(input));
        Lexer { scratch, chars }
    }

    /// Whether no sentinel has been handed out yet.
    spec fn reading(&self) -> bool {
        self.chars is Some
    }

    /// The text that is read, while reading.
    spec fn input(&self) -> Seq<char> {
        self.chars->0.text()
    }

    /// The offset of the character that comes next, while reading.
    spec fn pos(&self) -> int {
        self.chars->0.position() as int
    }

    /// Whether `self` reads the text that `before` read, and stands at `pos`.
    spec fn moved_to(&self, before: &Self, pos: int) -> bool {
        &&& self.reading()
        &&& self.input() == before.input()
        &&& self.pos() == pos
    }

    /// Takes the character that comes next, and the one behind it if that is
    /// `c`; returns `then` if it was, `els` if not.
    #[inline(always)]
    fn read_then_else(&mut self, c: char, then: Token, els: Token) -> (token: Token)
        requires
            old(self).reading(),
            old(self).pos() < old(self).input().len(),
            is_ascii(old(self).input()[old(self).pos()]),
            is_ascii(c),
        ensures
            char_at_is(old(self).input(), old(self).pos() + 1, c) ==> token == then
                && final(self).moved_to(old(self), old(self).pos() + 2),
            !char_at_is(old(self).input(), old(self).pos() + 1, c) ==> token == els
                && final(self).moved_to(old(self), old(self).pos() + 1),
    {
        match &mut self.chars {
            Some(cursor) => {
                cursor.bump();
                match cursor.peek() {
                    Some((_, next)) => {
                        if next == c {
                            cursor.bump();
                            then
                        } else {
                            els
                        }
                    },
                    None => els,
                }
            },
            None => els,
        }
    }

    /// Takes the longest run of letters and digits into the scratch buffer,
    /// and returns the keyword or identifier that it spells.
    #[inline(always)]
    fn read_keyword_or_identifier(&mut self) -> (token: Token)
        requires
            old(self).reading(),
        ensures
            final(self).moved_to(
                old(self),
                run_end(old(self).input(), old(self).pos(), CharClass::Word),
            ),
            token@ == word_token(old(self).input().subrange(old(self).pos(), final(self).pos())),
    {
        self.scratch.clear();
        match &mut self.chars {
            Some(cursor) => cursor.read_run(CharClass::Word, &mut self.scratch),
            None => {},
        }
        Token::keyword_or_identifier(&self.scratch)
    }

    /// Takes the longest run of digits and `_` into the scratch buffer, and
    /// returns the integer literal that holds it as written.
    #[inline(always)]
    fn read_integer(&mut self) -> (token: Token)
        requires
            old(self).reading(),
        ensures
            final(self).moved_to(
                old(self),
                run_end(old(self).input(), old(self).pos(), CharClass::Numeral),
            ),
            token@ == TokenView::Int(
                old(self).input().subrange(old(self).pos(), final(self).pos()),
            ),
    {
        self.scratch.clear();
        match &mut self.chars {
            Some(cursor) => cursor.read_run(CharClass::Numeral, &mut self.scratch),
            None => {},
        }
        Token::Int(self.scratch.clone())
    }

    /// Takes the character that comes next and returns `token`.
    #[inline(always)]
    fn read_token(&mut self, token: Token) -> (read: Token)
        requires
            old(self).reading(),
            old(self).pos() < old(self).input().len(),
            is_ascii(old(self).input()[old(self).pos()]),
        ensures
            read == token,
            final(self).moved_to(old(self), old(self).pos() + 1),
    {
        match &mut self.chars {
            Some(cursor) => cursor.bump(),
            None => {},
        }
        token
    }

    /// Takes the longest run of spaces.
    #[inline(always)]
    fn skip_whitespace(&mut self)
        requires
            old(self).reading(),
        ensures
            0 <= old(self).pos() <= old(self).input().len(),
            final(self).moved_to(
                old(self),
                run_end(old(self).input(), old(self).pos(), CharClass::Space),
            ),
    {
        match &mut self.chars {
            Some(cursor) => cursor.skip_run(CharClass::Space),
            None => {},
        }
    }

    /// The character that comes next with its offset, without taking it.
    fn peek(&self) -> (next: Option<(usize, char)>)
        requires
            self.reading(),
        ensures
            0 <= self.pos() <= self.input().len(),
            self.pos() < self.input().len() ==> found_at(next, self.input(), self.pos()),
            self.pos() == self.input().len() ==> next is None,
    {
        match &self.chars {
            Some(cursor) => cursor.peek(),
            None => None,
        }
    }

    /// Produces the next token: the one that starts behind the spaces at the
    /// cursor. A sentinel closes the tokenizer, and a closed tokenizer
    /// produces nothing.
    fn next_token(&mut self) -> (token: Option<Token>)
        ensures
            old(self)@.wf(),
            view_of(token) == old(self)@.yields(),
            final(self)@ == old(self)@.next(),
    {
        if self.chars.is_none() {
            return None;
        }
        self.skip_whitespace();
        let token = match self.peek() {
            Some((n, c)) => {
                if c == Token::SYM_ASSIGN {
                    self.read_then_else('=', Token::Eq, Token::Assign)
                } else if c == Token::SYM_PLUS {
                    self.read_token(Token::Plus)
                } else if c == Token::SYM_MINUS {
                    self.read_token(Token::Minus)
                } else if c == Token::SYM_BANG {
                    self.read_then_else('=', Token::NotEq, Token::Bang)
                } else if c == Token::SYM_ASTERISK {
                    self.read_token(Token::Asterisk)
                } else if c == Token::SYM_SLASH {
                    self.read_token(Token::Slash)
                } else if c == Token::SYM_LT {
                    self.read_token(Token::LThan)
                } else if c == Token::SYM_GT {
                    self.read_token(Token::GThan)
                } else if c == Token::SYM_COMMA {
                    self.read_token(Token::Comma)
                } else if c == Token::SYM_SEMICOLON {
                    self.read_token(Token::Semicolon)
                } else if c == Token::SYM_LPAREN {
                    self.read_token(Token::LParen)
                } else if c == Token::SYM_RPAREN {
                    self.read_token(Token::RParen)
                } else if c == Token::SYM_LBRACE {
                    self.read_token(Token::LBrace)
                } else if c == Token::SYM_RBRACE {
                    self.read_token(Token::RBrace)
                } else if letter(c) {
                    self.read_keyword_or_identifier()
                } else if digit(c) {
                    self.read_integer()
                } else {
                    Token::Invalid(c, n)
                }
            },
            None => Token::EOF,
        };
        if matches!(token, Token::Invalid(_, _) | Token::EOF) {
            self.chars = None;
        }
        Some(token)
    }

    /// Produces the next token of the text, or nothing once a sentinel has
    /// been produced: the end of the input, or a character that starts no
    /// token. The state before the request is well-formed, and so is the
    /// state after it.
    #[inline(always)]
    pub fn next(&mut self) -> (token: Option<Token>)
        ensures
            old(self)@.wf(),
            final(self)@.wf(),
            view_of(token) == old(self)@.yields(),
            final(self)@ == old(self)@.next(),
    {
        let token = self.next_token();
        proof {
            lemma_next_moves_forward(old(self)@);
        }
        token
    }
}

} // verus!
