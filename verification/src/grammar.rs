//! The token grammar as mathematics: which token stands at an offset of a
//! text, and where it ends.

use crate::text::{is_digit, is_letter, CharClass};
use crate::token::{lemma_word_is_no_sentinel, word_token, TokenView};
use vstd::prelude::*;

verus! {

/// Whether a character of `class` stands at `at`.
pub open spec fn char_in(s: Seq<char>, at: int, class: CharClass) -> bool {
    0 <= at < s.len() && class.has(s[at])
}

/// Where the longest run of characters of `class` that starts at `from` ends:
/// the offset of the first character at or after `from` that is not of the
/// class, or the length of the text.
pub open spec fn run_end(s: Seq<char>, from: int, class: CharClass) -> int
    decreases s.len() - from,
{
    if char_in(s, from, class) {
        run_end(s, from + 1, class)
    } else {
        from
    }
}

/// The token of a single punctuation character that needs no look at the
/// character after it.
pub open spec fn punctuation(c: char) -> Option<TokenView> {
    if c == '+' {
        Some(TokenView::Plus)
    } else if c == '-' {
        Some(TokenView::Minus)
    } else if c == '*' {
        Some(TokenView::Asterisk)
    } else if c == '/' {
        Some(TokenView::Slash)
    } else if c == '<' {
        Some(TokenView::LThan)
    } else if c == '>' {
        Some(TokenView::GThan)
    } else if c == ',' {
        Some(TokenView::Comma)
    } else if c == ';' {
        Some(TokenView::Semicolon)
    } else if c == '(' {
        Some(TokenView::LParen)
    } else if c == ')' {
        Some(TokenView::RParen)
    } else if c == '{' {
        Some(TokenView::LBrace)
    } else if c == '}' {
        Some(TokenView::RBrace)
    } else {
        None
    }
}

/// Whether the character at `at` is `c`.
pub open spec fn char_at_is(s: Seq<char>, at: int, c: char) -> bool {
    0 <= at < s.len() && s[at] == c
}

/// A token together with the offset just behind it.
pub ghost struct Lexeme {
    pub token: TokenView,
    pub end: int,
}

/// The token that starts at `at`, where no space stands: the end of the input
/// behind the last character; `==` and `!=` where a `=` follows `=` or `!`,
/// else `=` and `!` alone; one punctuation character; the longest word, as a
/// keyword or an identifier; the longest run of digits and `_` behind a digit;
/// and for any other character the invalid token, which consumes nothing.
pub open spec fn token_at(s: Seq<char>, at: int) -> Lexeme {
    if !(0 <= at < s.len()) {
        Lexeme { token: TokenView::EOF, end: at }
    } else if s[at] == '=' {
        if char_at_is(s, at + 1, '=') {
            Lexeme { token: TokenView::Eq, end: at + 2 }
        } else {
            Lexeme { token: TokenView::Assign, end: at + 1 }
        }
    } else if s[at] == '!' {
        if char_at_is(s, at + 1, '=') {
            Lexeme { token: TokenView::NotEq, end: at + 2 }
        } else {
            Lexeme { token: TokenView::Bang, end: at + 1 }
        }
    } else if let Some(token) = punctuation(s[at]) {
        Lexeme { token, end: at + 1 }
    } else if is_letter(s[at]) {
        let end = run_end(s, at, CharClass::Word);
        Lexeme { token: word_token(s.subrange(at, end)), end }
    } else if is_digit(s[at]) {
        let end = run_end(s, at, CharClass::Numeral);
        Lexeme { token: TokenView::Int(s.subrange(at, end)), end }
    } else {
        Lexeme { token: TokenView::Invalid(s[at], at as nat), end: at }
    }
}

/// The next token of a text of which the characters before `from` have been
/// read: the token that starts behind the spaces at `from`.
pub open spec fn next_lexeme(s: Seq<char>, from: int) -> Lexeme {
    token_at(s, run_end(s, from, CharClass::Space))
}

/// Whether a token other than the invalid one and the end of input begins
/// with `c`.
pub open spec fn starts_token(c: char) -> bool {
    c == '=' || c == '!' || punctuation(c) is Some || is_letter(c) || is_digit(c)
}

/// A run is a run: it ends at or behind its start and within the text, holds
/// only characters of its class, and no character of the class follows it.
pub proof fn lemma_run_end(s: Seq<char>, from: int, class: CharClass)
    requires
        0 <= from <= s.len(),
    ensures
        from <= run_end(s, from, class) <= s.len(),
        forall|i: int| from <= i < run_end(s, from, class) ==> class.has(#[trigger] s[i]),
        !char_in(s, run_end(s, from, class), class),
    decreases s.len() - from,
{
    if char_in(s, from, class) {
        lemma_run_end(s, from + 1, class);
    }
}

/// A run is the longest: a stretch of characters of the class that no
/// character of the class follows ends where the run from its start ends.
pub proof fn lemma_run_end_unique(s: Seq<char>, from: int, end: int, class: CharClass)
    requires
        0 <= from <= end <= s.len(),
        forall|i: int| from <= i < end ==> class.has(#[trigger] s[i]),
        !char_in(s, end, class),
    ensures
        run_end(s, from, class) == end,
    decreases end - from,
{
    if from < end {
        lemma_run_end_unique(s, from + 1, end, class);
    }
}

/// The next token lies within the text behind the cursor, and any token but
/// a sentinel takes at least one character.
pub proof fn lemma_next_lexeme_advances(s: Seq<char>, from: int)
    requires
        0 <= from <= s.len(),
    ensures
        from <= next_lexeme(s, from).end <= s.len(),
        !next_lexeme(s, from).token.is_sentinel() ==> from < next_lexeme(s, from).end,
{
    let at = run_end(s, from, CharClass::Space);
    lemma_run_end(s, from, CharClass::Space);
    if at < s.len() {
        lemma_run_end(s, at, CharClass::Word);
        lemma_run_end(s, at, CharClass::Numeral);
        lemma_word_is_no_sentinel(s.subrange(at, run_end(s, at, CharClass::Word)));
    }
}

/// Maximal munch: a word that begins at a letter takes every letter and
/// digit up to the first character that is neither, and is a keyword only as
/// a whole; a number that begins at a digit takes every digit and `_` up to
/// the first character that is neither, and holds them as written.
pub proof fn lemma_maximal_munch(s: Seq<char>, at: int)
    requires
        0 <= at < s.len(),
        is_letter(s[at]) || is_digit(s[at]),
    ensures
        at < token_at(s, at).end <= s.len(),
        is_letter(s[at]) ==> token_at(s, at).token == word_token(
            s.subrange(at, token_at(s, at).end),
        ) && !char_in(s, token_at(s, at).end, CharClass::Word) && forall|i: int|
            at <= i < token_at(s, at).end ==> CharClass::Word.has(#[trigger] s[i]),
        is_digit(s[at]) ==> token_at(s, at).token == TokenView::Int(
            s.subrange(at, token_at(s, at).end),
        ) && !char_in(s, token_at(s, at).end, CharClass::Numeral) && forall|i: int|
            at <= i < token_at(s, at).end ==> CharClass::Numeral.has(#[trigger] s[i]),
{
    lemma_run_end(s, at, CharClass::Word);
    lemma_run_end(s, at, CharClass::Numeral);
}

/// `=` and `!` are read with one character of lookahead: they become `==`
/// and `!=` exactly if a `=` follows at once, and only then is the second
/// character taken.
pub proof fn lemma_two_character_operators(s: Seq<char>, at: int)
    requires
        0 <= at < s.len(),
        s[at] == '=' || s[at] == '!',
    ensures
        char_at_is(s, at + 1, '=') ==> token_at(s, at).end == at + 2 && token_at(s, at).token == (
        if s[at] == '=' {
            TokenView::Eq
        } else {
            TokenView::NotEq
        }),
        !char_at_is(s, at + 1, '=') ==> token_at(s, at).end == at + 1 && token_at(s, at).token
            == (if s[at] == '=' {
            TokenView::Assign
        } else {
            TokenView::Bang
        }),
{
}

/// Whether `s` and `t` both hold `upto` characters or more, and the same
/// ones before offset `upto`.
pub open spec fn agree_before(s: Seq<char>, t: Seq<char>, upto: int) -> bool {
    &&& upto <= s.len()
    &&& upto <= t.len()
    &&& forall|i: int| 0 <= i < upto ==> s[i] == t[i]
}

/// Where a run ends depends on the text up to the character behind the run
/// only.
pub proof fn lemma_run_end_is_local(s: Seq<char>, t: Seq<char>, from: int, class: CharClass)
    requires
        0 <= from <= s.len(),
        agree_before(s, t, run_end(s, from, class) + 1),
    ensures
        run_end(t, from, class) == run_end(s, from, class),
    decreases s.len() - from,
{
    lemma_run_end(s, from, class);
    if char_in(s, from, class) {
        lemma_run_end_is_local(s, t, from + 1, class);
    }
}

/// One character of lookahead: the next token and its end depend on the text
/// up to the character behind the token only. Two texts that are the same up
/// to that character have the same next token.
pub proof fn lemma_one_character_of_lookahead(s: Seq<char>, t: Seq<char>, from: int)
    requires
        0 <= from <= s.len(),
        agree_before(s, t, next_lexeme(s, from).end + 1),
    ensures
        next_lexeme(t, from) == next_lexeme(s, from),
{
    let at = run_end(s, from, CharClass::Space);
    lemma_run_end(s, from, CharClass::Space);
    lemma_next_lexeme_advances(s, from);
    if at < s.len() {
        lemma_run_end(s, at, CharClass::Word);
        lemma_run_end(s, at, CharClass::Numeral);
    }
    lemma_run_end_is_local(s, t, from, CharClass::Space);
    let end = token_at(s, at).end;
    if is_letter(s[at]) {
        lemma_run_end_is_local(s, t, at, CharClass::Word);
        assert(s.subrange(at, end) =~= t.subrange(at, end));
    } else if is_digit(s[at]) {
        lemma_run_end_is_local(s, t, at, CharClass::Numeral);
        assert(s.subrange(at, end) =~= t.subrange(at, end));
    }
}

/// A run that ends at or before offset `upto` ends at the same place in the
/// text cut off at `upto`.
pub proof fn lemma_run_end_of_prefix(s: Seq<char>, upto: int, from: int, class: CharClass)
    requires
        0 <= from,
        run_end(s, from, class) <= upto <= s.len(),
    ensures
        run_end(s.take(upto), from, class) == run_end(s, from, class),
    decreases s.len() - from,
{
    if char_in(s, from, class) {
        lemma_run_end(s, from + 1, class);
        lemma_run_end_of_prefix(s, upto, from + 1, class);
    }
}

} // verus!
