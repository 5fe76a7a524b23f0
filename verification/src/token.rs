//! The tokens of the language, the keyword table, and how a token is spelled.

use crate::text::{decimal, push_decimal, same_text};
use vstd::prelude::*;
use vstd::string::StringExecFns;

verus! {

/// One classified unit of source text.
#[derive(Debug, PartialEq, Eq)]
pub enum Token {
    // Single-character tokens
    Assign,  // =
    Plus,  // +
    Minus,  // -
    Bang,  // !
    Asterisk,  // *
    Slash,  // /
    LThan,  // <
    GThan,  // >
    Comma,  // ,
    Semicolon,  // ;
    LParen,  // (
    RParen,  // )
    LBrace,  // {
    RBrace,  // }
    // Double-character tokens
    Eq,  // ==
    NotEq,  // !=
    // Keywords
    Fn,
    Let,
    True,
    False,
    If,
    Else,
    Return,
    /// A word that is no keyword, with its text.
    Identifier(String),
    /// An integer literal, with its text as written.
    Int(String),
    /// The input ended.
    EOF,
    /// A character that starts no token, with its zero-based offset.
    Invalid(char, usize),
}

/// What a [`Token`] says, with texts as sequences of characters.
pub ghost enum TokenView {
    Assign,
    Plus,
    Minus,
    Bang,
    Asterisk,
    Slash,
    LThan,
    GThan,
    Comma,
    Semicolon,
    LParen,
    RParen,
    LBrace,
    RBrace,
    Eq,
    NotEq,
    Fn,
    Let,
    True,
    False,
    If,
    Else,
    Return,
    Identifier(Seq<char>),
    Int(Seq<char>),
    EOF,
    Invalid(char, nat),
}

impl View for Token {
    type V = TokenView;

    open spec fn view(&self) -> TokenView {
        match self {
            Token::Assign => TokenView::Assign,
            Token::Plus => TokenView::Plus,
            Token::Minus => TokenView::Minus,
            Token::Bang => TokenView::Bang,
            Token::Asterisk => TokenView::Asterisk,
            Token::Slash => TokenView::Slash,
            Token::LThan => TokenView::LThan,
            Token::GThan => TokenView::GThan,
            Token::Comma => TokenView::Comma,
            Token::Semicolon => TokenView::Semicolon,
            Token::LParen => TokenView::LParen,
            Token::RParen => TokenView::RParen,
            Token::LBrace => TokenView::LBrace,
            Token::RBrace => TokenView::RBrace,
            Token::Eq => TokenView::Eq,
            Token::NotEq => TokenView::NotEq,
            Token::Fn => TokenView::Fn,
            Token::Let => TokenView::Let,
            Token::True => TokenView::True,
            Token::False => TokenView::False,
            Token::If => TokenView::If,
            Token::Else => TokenView::Else,
            Token::Return => TokenView::Return,
            Token::Identifier(text) => TokenView::Identifier(text@),
            Token::Int(text) => TokenView::Int(text@),
            Token::EOF => TokenView::EOF,
            Token::Invalid(c, at) => TokenView::Invalid(*c, *at as nat),
        }
    }
}

impl TokenView {
    /// Whether the token ends its stream: the end of the input, or a
    /// character that starts no token.
    pub open spec fn is_sentinel(self) -> bool {
        self is EOF || self is Invalid
    }

    /// Whether the token is one of the seven keywords.
    pub open spec fn is_keyword(self) -> bool {
        self is Fn || self is Let || self is True || self is False || self is If || self is Else
            || self is Return
    }
}

/// The view of a token that may be missing.
pub open spec fn view_of(token: Option<Token>) -> Option<TokenView> {
    match token {
        Some(t) => Some(t@),
        None => None,
    }
}

/// The keyword table: the keyword that `text` spells, letter for letter and
/// in lower case, if it spells one.
pub open spec fn keyword_of(text: Seq<char>) -> Option<TokenView> {
    if text == "fn"@ {
        Some(TokenView::Fn)
    } else if text == "let"@ {
        Some(TokenView::Let)
    } else if text == "true"@ {
        Some(TokenView::True)
    } else if text == "false"@ {
        Some(TokenView::False)
    } else if text == "if"@ {
        Some(TokenView::If)
    } else if text == "else"@ {
        Some(TokenView::Else)
    } else if text == "return"@ {
        Some(TokenView::Return)
    } else {
        None
    }
}

/// The token that a word stands for: its keyword, or else an identifier
/// that holds the word.
pub open spec fn word_token(text: Seq<char>) -> TokenView {
    match keyword_of(text) {
        Some(keyword) => keyword,
        None => TokenView::Identifier(text),
    }
}

/// How a token is written: the symbol or keyword itself, the text of an
/// identifier or an integer, and a description for the two sentinels.
pub open spec fn spelling(token: TokenView) -> Seq<char> {
    match token {
        TokenView::Assign => seq!['='],
        TokenView::Plus => seq!['+'],
        TokenView::Minus => seq!['-'],
        TokenView::Bang => seq!['!'],
        TokenView::Asterisk => seq!['*'],
        TokenView::Slash => seq!['/'],
        TokenView::LThan => seq!['<'],
        TokenView::GThan => seq!['>'],
        TokenView::Comma => seq![','],
        TokenView::Semicolon => seq![';'],
        TokenView::LParen => seq!['('],
        TokenView::RParen => seq![')'],
        TokenView::LBrace => seq!['{'],
        TokenView::RBrace => seq!['}'],
        TokenView::Eq => "=="@,
        TokenView::NotEq => "!="@,
        TokenView::Fn => "fn"@,
        TokenView::Let => "let"@,
        TokenView::True => "true"@,
        TokenView::False => "false"@,
        TokenView::If => "if"@,
        TokenView::Else => "else"@,
        TokenView::Return => "return"@,
        TokenView::Identifier(text) => text,
        TokenView::Int(text) => text,
        TokenView::EOF => "EOF"@,
        TokenView::Invalid(c, at) => "Invalid char '"@.push(c) + "' at position "@ + decimal(at),
    }
}

/// A word is a keyword or an identifier, never a sentinel.
pub proof fn lemma_word_is_no_sentinel(text: Seq<char>)
    ensures
        !word_token(text).is_sentinel(),
        word_token(text).is_keyword() || word_token(text) == TokenView::Identifier(text),
{
}

/// The keyword table holds each keyword under its own spelling, and nothing
/// else: a text is a keyword exactly if it is the spelling of one.
pub proof fn lemma_keyword_table(text: Seq<char>, keyword: TokenView)
    ensures
        keyword_of(text) == Some(keyword) <==> keyword.is_keyword() && text == spelling(keyword),
{
    reveal_strlit("fn");
    reveal_strlit("let");
    reveal_strlit("true");
    reveal_strlit("false");
    reveal_strlit("if");
    reveal_strlit("else");
    reveal_strlit("return");
    // The keywords differ in length or in their first letter.
    assert("false"@.len() == 5 && "return"@.len() == 6);
    assert("fn"@[0] != "if"@[0] && "true"@[0] != "else"@[0]);
}

/// The string that holds one character.
fn symbol(c: char) -> (s: String)
    ensures
        s@ == seq![c],
{
    let mut s = String::new();
    s.push(c);
    s
}

impl Token {
    // Single character tokens
    pub const SYM_ASSIGN: char = '=';

    pub const SYM_PLUS: char = '+';

    pub const SYM_MINUS: char = '-';

    pub const SYM_BANG: char = '!';

    pub const SYM_ASTERISK: char = '*';

    pub const SYM_SLASH: char = '/';

    pub const SYM_LT: char = '<';

    pub const SYM_GT: char = '>';

    pub const SYM_COMMA: char = ',';

    pub const SYM_SEMICOLON: char = ';';

    pub const SYM_LPAREN: char = '(';

    pub const SYM_RPAREN: char = ')';

    pub const SYM_LBRACE: char = '{';

    pub const SYM_RBRACE: char = '}';

    // Double character tokens
    pub const SYM_EQ: &'static str = "==";

    pub const SYM_NOT_EQ: &'static str = "!=";

    // Keywords
    pub const KW_FN: &'static str = "fn";

    pub const KW_LET: &'static str = "let";

    pub const KW_TRUE: &'static str = "true";

    pub const KW_FALSE: &'static str = "false";

    pub const KW_IF: &'static str = "if";

    pub const KW_ELSE: &'static str = "else";

    pub const KW_RETURN: &'static str = "return";

    /// Looks `text` up in the keyword table.
    pub fn keyword(text: &String) -> (token: Option<Token>)
        ensures
            view_of(token) == keyword_of(text@),
    {
        let word = text.as_str();
        if same_text(word, Self::KW_FN) {
            Some(Token::Fn)
        } else if same_text(word, Self::KW_LET) {
            Some(Token::Let)
        } else if same_text(word, Self::KW_TRUE) {
            Some(Token::True)
        } else if same_text(word, Self::KW_FALSE) {
            Some(Token::False)
        } else if same_text(word, Self::KW_IF) {
            Some(Token::If)
        } else if same_text(word, Self::KW_ELSE) {
            Some(Token::Else)
        } else if same_text(word, Self::KW_RETURN) {
            Some(Token::Return)
        } else {
            None
        }
    }

    /// The keyword that `kw` spells, or else the identifier `kw`.
    pub fn keyword_or_identifier(kw: &String) -> (token: Token)
        ensures
            token@ == word_token(kw@),
    {
        match Self::keyword(kw) {
            Some(token) => token,
            None => Token::Identifier(kw.clone()),
        }
    }

    /// The token as text.
    pub fn literal(&self) -> (s: String)
        ensures
            s@ == spelling(self@),
    {
        match self {
            Token::Assign => symbol(Self::SYM_ASSIGN),
            Token::Plus => symbol(Self::SYM_PLUS),
            Token::Minus => symbol(Self::SYM_MINUS),
            Token::Bang => symbol(Self::SYM_BANG),
            Token::Asterisk => symbol(Self::SYM_ASTERISK),
            Token::Slash => symbol(Self::SYM_SLASH),
            Token::LThan => symbol(Self::SYM_LT),
            Token::GThan => symbol(Self::SYM_GT),
            Token::Comma => symbol(Self::SYM_COMMA),
            Token::Semicolon => symbol(Self::SYM_SEMICOLON),
            Token::LParen => symbol(Self::SYM_LPAREN),
            Token::RParen => symbol(Self::SYM_RPAREN),
            Token::LBrace => symbol(Self::SYM_LBRACE),
            Token::RBrace => symbol(Self::SYM_RBRACE),
            Token::Eq => Self::SYM_EQ.to_owned(),
            Token::NotEq => Self::SYM_NOT_EQ.to_owned(),
            Token::Fn => Self::KW_FN.to_owned(),
            Token::Let => Self::KW_LET.to_owned(),
            Token::True => Self::KW_TRUE.to_owned(),
            Token::False => Self::KW_FALSE.to_owned(),
            Token::If => Self::KW_IF.to_owned(),
            Token::Else => Self::KW_ELSE.to_owned(),
            Token::Return => Self::KW_RETURN.to_owned(),
            Token::Identifier(text) => text.clone(),
            Token::Int(text) => text.clone(),
            Token::EOF => "EOF".to_owned(),
            Token::Invalid(c, at) => {
                let mut s = "Invalid char '".to_owned();
                s.push(*c);
                s.append("' at position ");
                push_decimal(&mut s, *at);
                s
            },
        }
    }
}

} // verus!
