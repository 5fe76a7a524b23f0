//! The tokenizer as a state machine: where it stands, what the next request
//! returns, and what holds of the stream of tokens as a whole.

use crate::grammar::{
    lemma_next_lexeme_advances, lemma_run_end, lemma_run_end_of_prefix, lemma_run_end_unique,
    next_lexeme, run_end, starts_token,
};
use crate::text::{is_digit, is_letter, is_space, CharClass};
use crate::token::{lemma_word_is_no_sentinel, TokenView};
use vstd::prelude::*;

verus! {

/// Where a tokenizer stands.
pub ghost enum LexerState {
    /// It reads `input`, and has read the characters before `pos`.
    Reading { input: Seq<char>, pos: nat },
    /// It has handed out a sentinel and reads no more.
    Closed,
}

impl LexerState {
    /// The state of a tokenizer that has read nothing of `input` yet.
    pub open spec fn start(input: Seq<char>) -> LexerState {
        LexerState::Reading { input, pos: 0 }
    }

    /// Whether the offset lies within the input or at its end.
    pub open spec fn wf(self) -> bool {
        match self {
            LexerState::Reading { input, pos } => pos <= input.len(),
            LexerState::Closed => true,
        }
    }

    /// What the next request returns: the next token, or nothing once a
    /// sentinel has been handed out.
    pub open spec fn yields(self) -> Option<TokenView> {
        match self {
            LexerState::Reading { input, pos } => Some(next_lexeme(input, pos as int).token),
            LexerState::Closed => None,
        }
    }

    /// The state after the next request: behind the token that it returned,
    /// or closed if that token was a sentinel.
    pub open spec fn next(self) -> LexerState {
        match self {
            LexerState::Reading { input, pos } => {
                let lexeme = next_lexeme(input, pos as int);
                if lexeme.token.is_sentinel() {
                    LexerState::Closed
                } else {
                    LexerState::Reading { input, pos: lexeme.end as nat }
                }
            },
            LexerState::Closed => LexerState::Closed,
        }
    }

    /// The state after `n` requests.
    pub open spec fn after(self, n: nat) -> LexerState
        decreases n,
    {
        if n == 0 {
            self
        } else {
            self.next().after((n - 1) as nat)
        }
    }
}

/// A request leaves a well-formed state well-formed, keeps the input, and
/// moves the cursor forward unless it closes the tokenizer.
pub proof fn lemma_next_moves_forward(state: LexerState)
    requires
        state.wf(),
    ensures
        state.next().wf(),
        state.next() matches LexerState::Reading { input, pos } ==> state is Reading
            && input == state->input && pos > state->pos,
        state.next() is Closed <==> (state.yields() matches Some(token) ==> token.is_sentinel()),
{
    if let LexerState::Reading { input, pos } = state {
        lemma_next_lexeme_advances(input, pos as int);
    }
}

/// The state after one request more is the next state of the state before.
pub proof fn lemma_after_next(state: LexerState, n: nat)
    ensures
        state.after(n + 1) == state.after(n).next(),
    decreases n,
{
    if n > 0 {
        lemma_after_next(state.next(), (n - 1) as nat);
    } else {
        assert(state.after(1) == state.next().after(0));
    }
}

/// A closed tokenizer stays closed: if it is closed after `i` requests, it is
/// closed after any greater number of them.
pub proof fn lemma_closed_is_final(state: LexerState, i: nat, j: nat)
    requires
        i <= j,
        state.after(i) is Closed,
    ensures
        state.after(j) is Closed,
    decreases j - i,
{
    if i < j {
        lemma_after_next(state, i);
        lemma_closed_is_final(state, i + 1, j);
    }
}

/// A sentinel is the last token: once a request has returned a sentinel, or
/// nothing, every later request returns nothing, and the tokenizer is closed
/// for good.
pub proof fn lemma_sentinel_is_last(state: LexerState, i: nat, j: nat)
    requires
        i < j,
        state.after(i).yields() matches Some(token) ==> token.is_sentinel(),
    ensures
        state.after(j) is Closed,
        state.after(j).yields() is None,
{
    lemma_after_next(state, i);
    lemma_closed_is_final(state, i + 1, j);
}

/// A text of spaces alone, the empty text among them, gives the end of
/// input at the first request and nothing after it.
pub proof fn lemma_blank_input(input: Seq<char>, n: nat)
    requires
        forall|i: int| 0 <= i < input.len() ==> is_space(#[trigger] input[i]),
    ensures
        LexerState::start(input).yields() == Some(TokenView::EOF),
        n >= 1 ==> LexerState::start(input).after(n).yields() is None,
{
    lemma_run_end_unique(input, 0, input.len() as int, CharClass::Space);
    if n >= 1 {
        lemma_sentinel_is_last(LexerState::start(input), 0, n);
    }
}

/// The shape of a token stream: some number `n` of tokens that are no
/// sentinels, at most one for each character that is left, then one
/// sentinel, then nothing.
pub proof fn lemma_stream_shape(input: Seq<char>, pos: nat) -> (n: nat)
    requires
        pos <= input.len(),
    ensures
        n <= input.len() - pos,
        forall|i: nat|
            i < n ==> ((#[trigger] (LexerState::Reading { input, pos }).after(i)).yields()
                matches Some(token) && !token.is_sentinel()),
        (LexerState::Reading { input, pos }).after(n).yields() matches Some(token)
            && token.is_sentinel(),
        forall|j: nat|
            j > n ==> (#[trigger] (LexerState::Reading { input, pos }).after(j)).yields() is None,
    decreases input.len() - pos,
{
    let state = LexerState::Reading { input, pos };
    lemma_next_moves_forward(state);
    if state.next() is Closed {
        assert forall|j: nat| j > 0 implies (#[trigger] state.after(j)).yields() is None by {
            lemma_sentinel_is_last(state, 0, j);
        }
        0
    } else {
        let m = lemma_stream_shape(input, state.next()->pos);
        assert forall|i: nat| i < m + 1 implies ((#[trigger] state.after(i)).yields() matches Some(
            token,
        ) && !token.is_sentinel()) by {
            if i > 0 {
                assert(state.after(i) == state.next().after((i - 1) as nat));
            }
        }
        assert forall|j: nat| j > m + 1 implies (#[trigger] state.after(j)).yields() is None by {
            assert(state.after(j) == state.next().after((j - 1) as nat));
        }
        m + 1
    }
}

/// The invalid token reports the first character behind the spaces that
/// starts no token, with its zero-based offset, and it is produced for no
/// other reason; it closes the tokenizer.
pub proof fn lemma_invalid_character(s: Seq<char>, from: int)
    requires
        0 <= from <= s.len(),
    ensures
        ({
            let at = run_end(s, from, CharClass::Space);
            let token = next_lexeme(s, from).token;
            &&& token is Invalid <==> at < s.len() && !starts_token(s[at])
            &&& token is Invalid ==> token == TokenView::Invalid(s[at], at as nat)
            &&& token is Invalid ==> (LexerState::Reading { input: s, pos: from as nat }).next()
                == LexerState::Closed
            &&& token is EOF <==> at == s.len()
            &&& forall|i: int| from <= i < at ==> is_space(#[trigger] s[i])
        }),
{
    let at = run_end(s, from, CharClass::Space);
    lemma_run_end(s, from, CharClass::Space);
    if at < s.len() {
        lemma_word_is_no_sentinel(s.subrange(at, run_end(s, at, CharClass::Word)));
    }
}

/// An invalid token that some later request returns lies at or behind the
/// cursor, and names the character that stands there.
pub proof fn lemma_invalid_lies_ahead(s: Seq<char>, pos: nat, n: nat, c: char, at: nat)
    requires
        pos <= s.len(),
        (LexerState::Reading { input: s, pos }).after(n).yields() == Some(
            TokenView::Invalid(c, at),
        ),
    ensures
        pos <= at < s.len(),
        c == s[at as int],
        !starts_token(c),
    decreases n,
{
    let state = LexerState::Reading { input: s, pos };
    lemma_next_moves_forward(state);
    if n == 0 {
        lemma_run_end(s, pos as int, CharClass::Space);
        lemma_invalid_character(s, pos as int);
    } else {
        if state.next() is Closed {
            lemma_closed_is_final(state.next(), 0, (n - 1) as nat);
        }
        lemma_invalid_lies_ahead(s, state.next()->pos, (n - 1) as nat, c, at);
    }
}

/// An invalid character does not disturb the tokens before it: where the
/// request after `n` others returns the invalid token for offset `at`, those
/// `n` requests return what they return on the text before `at` alone, which
/// then is at its end.
pub proof fn lemma_tokens_before_invalid(s: Seq<char>, pos: nat, n: nat, c: char, at: nat)
    requires
        pos <= s.len(),
        (LexerState::Reading { input: s, pos }).after(n).yields() == Some(
            TokenView::Invalid(c, at),
        ),
    ensures
        at < s.len(),
        forall|i: nat|
            i < n ==> (#[trigger] (LexerState::Reading { input: s.take(at as int), pos }).after(
                i,
            )).yields() == (LexerState::Reading { input: s, pos }).after(i).yields(),
        (LexerState::Reading { input: s.take(at as int), pos }).after(n).yields() == Some(
            TokenView::EOF,
        ),
    decreases n,
{
    let state = LexerState::Reading { input: s, pos };
    let t = s.take(at as int);
    let cut = LexerState::Reading { input: t, pos };
    let space_end = run_end(s, pos as int, CharClass::Space);
    lemma_invalid_lies_ahead(s, pos, n, c, at);
    lemma_next_moves_forward(state);
    lemma_invalid_character(s, pos as int);
    if n == 0 {
        lemma_run_end_of_prefix(s, at as int, pos as int, CharClass::Space);
    } else {
        if state.next() is Closed {
            lemma_closed_is_final(state.next(), 0, (n - 1) as nat);
        }
        let next = state.next()->pos;
        lemma_invalid_lies_ahead(s, next, (n - 1) as nat, c, at);
        lemma_run_end(s, pos as int, CharClass::Space);
        lemma_run_end(s, space_end, CharClass::Word);
        lemma_run_end(s, space_end, CharClass::Numeral);
        lemma_run_end_of_prefix(s, at as int, pos as int, CharClass::Space);
        if is_letter(s[space_end]) {
            lemma_run_end_of_prefix(s, at as int, space_end, CharClass::Word);
            assert(s.subrange(space_end, next as int) =~= t.subrange(space_end, next as int));
        } else if is_digit(s[space_end]) {
            lemma_run_end_of_prefix(s, at as int, space_end, CharClass::Numeral);
            assert(s.subrange(space_end, next as int) =~= t.subrange(space_end, next as int));
        }
        lemma_tokens_before_invalid(s, next, (n - 1) as nat, c, at);
        assert forall|i: nat| i < n implies (#[trigger] cut.after(i)).yields() == state.after(
            i,
        ).yields() by {
            if i > 0 {
                assert(cut.after(i) == cut.next().after((i - 1) as nat));
            }
        }
    }
}

} // verus!
