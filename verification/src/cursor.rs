//! A cursor over borrowed text with one character of lookahead.

use crate::grammar::{char_in, run_end};
use crate::text::{
    ascii_prefix, is_ascii, lemma_ascii_prefix_bytes, lemma_first_byte, CharClass,
};
use vstd::prelude::*;
use vstd::string::{StrSliceExecFns, StringSliceAdditionalSpecFns};

verus! {

/// Whether `next` holds the character of `s` at offset `at`, and that offset.
pub open spec fn found_at(next: Option<(usize, char)>, s: Seq<char>, at: int) -> bool {
    &&& 0 <= at < s.len()
    &&& next matches Some((offset, c))
    &&& offset == at
    &&& c == s[at]
}

/// A place in a borrowed text, from which the character there can be looked at
/// before it is taken. Only ASCII characters are ever taken, so the offset
/// counts bytes and characters alike.
pub(crate) struct Cursor<'a> {
    input: &'a str,
    pos: usize,
}

impl<'a> Cursor<'a> {
    #[verifier::type_invariant]
    spec fn inv(&self) -> bool {
        &&& self.pos <= self.input@.len()
        &&& ascii_prefix(self.input@, self.pos as int)
    }

    /// The whole text.
    pub(crate) closed spec fn text(&self) -> Seq<char> {
        self.input@
    }

    /// The zero-based offset of the character that comes next.
    pub(crate) closed spec fn position(&self) -> nat {
        self.pos as nat
    }

    pub(crate) fn new(input: &'a str) -> (cursor: Cursor<'a>)
        ensures
            cursor.text() == input@,
            cursor.position() == 0,
    {
        Cursor { input, pos: 0 }
    }

    /// The next character with its offset, without taking it.
    pub(crate) fn peek(&self) -> (next: Option<(usize, char)>)
        ensures
            self.position() <= self.text().len(),
            self.position() < self.text().len() ==> found_at(
                next,
                self.text(),
                self.position() as int,
            ),
            self.position() == self.text().len() ==> next is None,
    {
        proof {
            use_type_invariant(self);
            lemma_ascii_prefix_bytes(self.input@, self.pos as int);
        }
        let bytes = self.input.as_bytes();
        if self.pos < bytes.len() {
            let byte = bytes[self.pos];
            if byte < 0x80 {
                proof {
                    lemma_first_byte(self.input@[self.pos as int]);
                }
                Some((self.pos, byte as char))
            } else {
                Some((self.pos, self.input.get_char(self.pos)))
            }
        } else {
            None
        }
    }

    /// Takes the next character.
    pub(crate) fn bump(&mut self)
        requires
            old(self).position() < old(self).text().len(),
            is_ascii(old(self).text()[old(self).position() as int]),
        ensures
            final(self).text() == old(self).text(),
            final(self).position() == old(self).position() + 1,
    {
        proof {
            use_type_invariant(&*self);
            lemma_ascii_prefix_bytes(self.input@, self.pos as int);
        }
        if self.pos < self.input.as_bytes().len() {
            self.pos = self.pos + 1;
        }
    }

    /// Takes the next character if it is of `class`, and returns it with its
    /// offset.
    pub(crate) fn next_if(&mut self, class: CharClass) -> (next: Option<(usize, char)>)
        ensures
            final(self).text() == old(self).text(),
            old(self).position() <= old(self).text().len(),
            char_in(old(self).text(), old(self).position() as int, class) ==> found_at(
                next,
                old(self).text(),
                old(self).position() as int,
            ) && final(self).position() == old(self).position() + 1,
            !char_in(old(self).text(), old(self).position() as int, class) ==> next is None
                && final(self).position() == old(self).position(),
    {
        match self.peek() {
            Some((at, c)) => {
                if class.contains(c) {
                    self.bump();
                    Some((at, c))
                } else {
                    None
                }
            },
            None => None,
        }
    }

    /// Takes the longest run of characters of `class`.
    pub(crate) fn skip_run(&mut self, class: CharClass)
        ensures
            final(self).text() == old(self).text(),
            old(self).position() <= old(self).text().len(),
            final(self).position() == run_end(
                old(self).text(),
                old(self).position() as int,
                class,
            ),
    {
        let ghost from = self.position() as int;
        proof {
            use_type_invariant(&*self);
        }
        loop
            invariant
                self.text() == old(self).text(),
                from == old(self).position(),
                from <= self.position(),
                run_end(self.text(), self.position() as int, class) == run_end(
                    self.text(),
                    from,
                    class,
                ),
            ensures
                self.position() == run_end(self.text(), from, class),
            decreases self.text().len() - self.position(),
        {
            match self.next_if(class) {
                Some(_) => {},
                None => {
                    break;
                },
            }
        }
    }

    /// Takes the longest run of characters of `class` and appends it to
    /// `buffer`.
    pub(crate) fn read_run(&mut self, class: CharClass, buffer: &mut String)
        ensures
            final(self).text() == old(self).text(),
            final(self).position() == run_end(
                old(self).text(),
                old(self).position() as int,
                class,
            ),
            old(self).position() <= final(self).position() <= old(self).text().len(),
            final(buffer)@ == old(buffer)@ + old(self).text().subrange(
                old(self).position() as int,
                final(self).position() as int,
            ),
    {
        let ghost input = self.text();
        let ghost from = self.position() as int;
        proof {
            use_type_invariant(&*self);
        }
        loop
            invariant
                self.text() == input,
                input == old(self).text(),
                from == old(self).position(),
                0 <= from <= self.position() <= input.len(),
                run_end(input, self.position() as int, class) == run_end(input, from, class),
                buffer@ == old(buffer)@ + input.subrange(from, self.position() as int),
            ensures
                self.position() == run_end(input, from, class),
            decreases input.len() - self.position(),
        {
            match self.next_if(class) {
                Some((_, c)) => {
                    buffer.push(c);
                },
                None => {
                    break;
                },
            }
        }
    }
}

} // verus!
