//! Building blocks on text: character classes, string building, comparison of
//! strings, and what the UTF-8 form of a text says about its leading ASCII part.

use vstd::prelude::*;
use vstd::string::StringSliceAdditionalSpecFns;
use vstd::utf8::{
    encode_scalar, encode_utf8, encode_utf8_decode_utf8, has_width_1_encoding,
    has_width_2_encoding, has_width_3_encoding, leading_byte_width_1, leading_byte_width_2,
    leading_byte_width_3, leading_byte_width_4,
};

verus! {

/// `String::push` appends the character to the end of the string and leaves
/// what was there before untouched.
pub assume_specification[ String::push ](s: &mut String, c: char)
    ensures
        final(s)@ == old(s)@.push(c),
;

/// `String::clear` removes all the characters; the string is empty afterwards.
pub assume_specification[ String::clear ](s: &mut String)
    ensures
        final(s)@ == Seq::<char>::empty(),
;

/// `String::with_capacity` returns an empty string, whatever room it reserves.
pub assume_specification[ String::with_capacity ](capacity: usize) -> (s: String)
    ensures
        s@ == Seq::<char>::empty(),
;

/// The characters that separate tokens and belong to none: the space, the
/// tab, the line feed and the carriage return.
pub open spec fn is_space(c: char) -> bool {
    c == ' ' || c == '\t' || c == '\n' || c == '\r'
}

/// An ASCII letter, upper or lower case.
pub open spec fn is_letter(c: char) -> bool {
    ('a' <= c && c <= 'z') || ('A' <= c && c <= 'Z')
}

/// An ASCII decimal digit.
pub open spec fn is_digit(c: char) -> bool {
    '0' <= c && c <= '9'
}

/// An ASCII letter or digit: what a word is made of.
pub open spec fn is_alphanumeric(c: char) -> bool {
    is_letter(c) || is_digit(c)
}

/// A digit or the separator `_`: what an integer literal is made of.
pub open spec fn is_numeral(c: char) -> bool {
    is_digit(c) || c == '_'
}

/// A character of the ASCII range.
pub open spec fn is_ascii(c: char) -> bool {
    c <= '\u{7f}'
}

/// Whether `c` is a space, a tab, a line feed or a carriage return.
pub fn space(c: char) -> (r: bool)
    ensures
        r == is_space(c),
{
    c == ' ' || c == '\t' || c == '\n' || c == '\r'
}

/// Whether `c` is an ASCII letter.
pub fn letter(c: char) -> (r: bool)
    ensures
        r == is_letter(c),
{
    (c >= 'a' && c <= 'z') || (c >= 'A' && c <= 'Z')
}

/// Whether `c` is an ASCII digit.
pub fn digit(c: char) -> (r: bool)
    ensures
        r == is_digit(c),
{
    c >= '0' && c <= '9'
}

/// Whether `c` is an ASCII letter or digit.
pub fn alphanumeric(c: char) -> (r: bool)
    ensures
        r == is_alphanumeric(c),
{
    letter(c) || digit(c)
}

/// Whether `c` is an ASCII digit or `_`.
pub fn numeral(c: char) -> (r: bool)
    ensures
        r == is_numeral(c),
{
    digit(c) || c == '_'
}

/// The classes of characters of which the grammar takes maximal runs.
#[derive(Clone, Copy, Debug, PartialEq, Eq)]
pub enum CharClass {
    /// What separates tokens.
    Space,
    /// What words (keywords and identifiers) are made of.
    Word,
    /// What integer literals are made of.
    Numeral,
}

impl CharClass {
    /// Whether `c` belongs to the class.
    pub open spec fn has(self, c: char) -> bool {
        match self {
            CharClass::Space => is_space(c),
            CharClass::Word => is_alphanumeric(c),
            CharClass::Numeral => is_numeral(c),
        }
    }

    /// Whether `c` belongs to the class.
    pub fn contains(self, c: char) -> (r: bool)
        ensures
            r == self.has(c),
            r ==> is_ascii(c),
    {
        match self {
            CharClass::Space => space(c),
            CharClass::Word => alphanumeric(c),
            CharClass::Numeral => numeral(c),
        }
    }
}

/// Whether every character of `s` before offset `upto` is ASCII.
pub open spec fn ascii_prefix(s: Seq<char>, upto: int) -> bool {
    forall|i: int| 0 <= i < upto ==> is_ascii(#[trigger] s[i])
}

/// An ASCII character is encoded as the one byte of its own value, which is
/// below 0x80; every other character starts with a byte of 0x80 or more.
pub proof fn lemma_first_byte(c: char)
    ensures
        encode_scalar(c as u32).len() >= 1,
        is_ascii(c) ==> encode_scalar(c as u32) =~= seq![c as u8],
        is_ascii(c) ==> (c as u8) < 0x80 && (c as u8) as char == c,
        !is_ascii(c) ==> encode_scalar(c as u32)[0] >= 0x80,
{
    let v = c as u32;
    if has_width_1_encoding(v) {
        assert(leading_byte_width_1(v) == v as u8) by (bit_vector)
            requires
                has_width_1_encoding(v),
        ;
    } else if has_width_2_encoding(v) {
        assert(leading_byte_width_2(v) >= 0x80) by (bit_vector);
    } else if has_width_3_encoding(v) {
        assert(leading_byte_width_3(v) >= 0x80) by (bit_vector);
    } else {
        assert(leading_byte_width_4(v) >= 0x80) by (bit_vector);
    }
}

/// Where a text starts with `upto` ASCII characters, its UTF-8 form starts with
/// the same `upto` values, byte for character; the byte that follows them tells
/// whether the next character is ASCII, and is that character if so.
pub proof fn lemma_ascii_prefix_bytes(s: Seq<char>, upto: int)
    requires
        0 <= upto <= s.len(),
        ascii_prefix(s, upto),
    ensures
        upto <= encode_utf8(s).len(),
        forall|i: int| 0 <= i < upto ==> encode_utf8(s)[i] == s[i] as u8,
        upto < s.len() ==> upto < encode_utf8(s).len(),
        upto < s.len() ==> (encode_utf8(s)[upto] < 0x80 <==> is_ascii(s[upto])),
        upto < s.len() && is_ascii(s[upto]) ==> encode_utf8(s)[upto] == s[upto] as u8,
        upto == s.len() ==> encode_utf8(s).len() == upto,
    decreases upto,
{
    let bytes = encode_utf8(s);
    if s.len() > 0 {
        let rest = s.drop_first();
        lemma_first_byte(s[0]);
        assert(bytes =~= encode_scalar(s[0] as u32) + encode_utf8(rest));
        if upto > 0 {
            assert(ascii_prefix(rest, upto - 1));
            lemma_ascii_prefix_bytes(rest, upto - 1);
            assert forall|i: int| 0 <= i < upto implies bytes[i] == s[i] as u8 by {
                if i > 0 {
                    assert(bytes[i] == encode_utf8(rest)[i - 1]);
                }
            }
            if upto < s.len() {
                assert(bytes[upto] == encode_utf8(rest)[upto - 1]);
            }
        } else {
            assert(bytes[0] == encode_scalar(s[0] as u32)[0]);
        }
    }
}

/// Two texts with the same UTF-8 form are the same text.
pub proof fn lemma_same_bytes_same_text(a: Seq<char>, b: Seq<char>)
    requires
        encode_utf8(a) == encode_utf8(b),
    ensures
        a == b,
{
    encode_utf8_decode_utf8(a);
    encode_utf8_decode_utf8(b);
}

/// Whether two strings hold the same characters.
pub fn same_text(a: &str, b: &str) -> (r: bool)
    ensures
        r == (a@ == b@),
{
    let x = a.as_bytes();
    let y = b.as_bytes();
    if x.len() != y.len() {
        return false;
    }
    let mut i: usize = 0;
    while i < x.len()
        invariant
            x@ == a.spec_bytes(),
            y@ == b.spec_bytes(),
            x@.len() == y@.len(),
            i <= x@.len(),
            forall|j: int| 0 <= j < i ==> x@[j] == y@[j],
        decreases x@.len() - i,
    {
        if x[i] != y[i] {
            return false;
        }
        i = i + 1;
    }
    proof {
        assert(x@ =~= y@);
        lemma_same_bytes_same_text(a@, b@);
    }
    true
}

/// The character that shows the digit `d`.
pub open spec fn digit_char(d: nat) -> char
    recommends
        d < 10,
{
    (('0' as nat) + d) as char
}

/// The decimal numeral of `n`: its digits, most significant first, with no
/// leading zero but for zero itself.
pub open spec fn decimal(n: nat) -> Seq<char>
    decreases n,
{
    if n < 10 {
        seq![digit_char(n)]
    } else {
        decimal(n / 10).push(digit_char(n % 10))
    }
}

/// Appends the decimal numeral of `n` to `s`.
pub fn push_decimal(s: &mut String, n: usize)
    ensures
        final(s)@ == old(s)@ + decimal(n as nat),
    decreases n,
{
    if n >= 10 {
        push_decimal(s, n / 10);
    }
    let d = (n % 10) as u8;
    s.push((48u8 + d) as char);
}

} // verus!
